//! Message timestamps and the time elapsed between two of them.
use vstd::prelude::*;

use crate::error::MessageError;
use crate::strings::{push_char, push_str};

verus! {

/// Stored timestamps count nanoseconds.
pub const TIMESTAMP_FACTOR: i64 = 1_000_000_000;
/// Seconds from the Unix epoch to 2001-01-01 00:00:00 UTC, the epoch of stored timestamps.
pub const APPLE_EPOCH_OFFSET: i64 = 978_307_200;
/// The earliest Unix time, in seconds, that chrono can represent.
pub const MIN_UNIX_SECONDS: i64 = -8_334_601_228_800;
/// The latest Unix time, in seconds, that chrono can represent.
pub const MAX_UNIX_SECONDS: i64 = 8_210_266_876_799;

/// Relies on `chrono::DateTime::from_timestamp`: it returns `None` exactly for
/// seconds outside `DateTime::<Utc>::MIN_UTC..=MAX_UTC` (years -262143 through
/// 262142), when the nanoseconds are zero.
#[verifier::external_body]
fn representable(seconds: i64) -> (r: bool)
    ensures
        r == (MIN_UNIX_SECONDS <= seconds && seconds <= MAX_UNIX_SECONDS),
{
    chrono::DateTime::from_timestamp(seconds, 0).is_some()
}

/// The offset between the stored epoch and the Unix epoch, in seconds.
pub fn get_offset() -> (r: i64)
    ensures
        r == APPLE_EPOCH_OFFSET,
{
    APPLE_EPOCH_OFFSET
}

/// Integer division that rounds toward zero.
pub open spec fn trunc_div(a: int, b: int) -> int {
    if a >= 0 {
        a / b
    } else {
        -((-a) / b)
    }
}

/// The Unix time, in seconds, of a stored timestamp.
pub open spec fn spec_unix_seconds(stamp: i64, offset: i64) -> int {
    trunc_div(stamp as int, TIMESTAMP_FACTOR as int) + offset
}

/// Converts a stored timestamp to Unix seconds, failing when chrono cannot
/// represent the instant.
pub fn get_local_time(stamp: &i64, offset: &i64) -> (r: Result<i64, MessageError>)
    ensures
        ({
            let t = spec_unix_seconds(*stamp, *offset);
            if MIN_UNIX_SECONDS <= t <= MAX_UNIX_SECONDS {
                r == Ok::<i64, MessageError>(t as i64)
            } else {
                r == Err::<i64, MessageError>(MessageError::InvalidTimestamp(*stamp))
            }
        }),
{
    let s = *stamp as i128;
    let secs: i128 = if s >= 0 {
        s / 1_000_000_000
    } else {
        -((-s) / 1_000_000_000)
    };
    let t = secs + *offset as i128;
    if t < i64::MIN as i128 || t > i64::MAX as i128 {
        return Err(MessageError::InvalidTimestamp(*stamp));
    }
    if representable(t as i64) {
        Ok(t as i64)
    } else {
        Err(MessageError::InvalidTimestamp(*stamp))
    }
}

pub open spec fn digit_char(d: nat) -> char {
    if d == 0 {
        '0'
    } else if d == 1 {
        '1'
    } else if d == 2 {
        '2'
    } else if d == 3 {
        '3'
    } else if d == 4 {
        '4'
    } else if d == 5 {
        '5'
    } else if d == 6 {
        '6'
    } else if d == 7 {
        '7'
    } else if d == 8 {
        '8'
    } else {
        '9'
    }
}

/// The decimal digits of `n`.
pub open spec fn decimal(n: nat) -> Seq<char>
    decreases n,
{
    if n < 10 {
        seq![digit_char(n)]
    } else {
        decimal(n / 10).push(digit_char(n % 10))
    }
}

fn digit(d: u64) -> (c: char)
    requires
        d < 10,
    ensures
        c == digit_char(d as nat),
{
    if d == 0 {
        '0'
    } else if d == 1 {
        '1'
    } else if d == 2 {
        '2'
    } else if d == 3 {
        '3'
    } else if d == 4 {
        '4'
    } else if d == 5 {
        '5'
    } else if d == 6 {
        '6'
    } else if d == 7 {
        '7'
    } else if d == 8 {
        '8'
    } else {
        '9'
    }
}

/// Appends the decimal digits of `n`.
pub fn push_decimal(s: &mut String, n: u64)
    ensures
        final(s)@ == old(s)@ + decimal(n as nat),
    decreases n,
{
    if n >= 10 {
        push_decimal(s, n / 10);
    }
    push_char(s, digit(n % 10));
    proof {
        if n < 10 {
            assert(old(s)@ + decimal(n as nat) =~= old(s)@.push(digit_char(n as nat)));
        }
    }
}

/// `acc` followed by `n unit` (or the plural unit), separated by a comma
/// when `acc` is not empty; `acc` itself when `n` is zero.
pub open spec fn add_part(acc: Seq<char>, n: nat, one: Seq<char>, many: Seq<char>) -> Seq<char> {
    if n == 0 {
        acc
    } else {
        let part = decimal(n) + seq![' '] + if n == 1 {
            one
        } else {
            many
        };
        if acc.len() == 0 {
            part
        } else {
            acc + seq![',', ' '] + part
        }
    }
}

/// The elapsed time of `seconds`, as days, hours, minutes and seconds
/// without the zero parts: `1 hour, 49 seconds`.
pub open spec fn spec_diff_text(seconds: nat) -> Seq<char> {
    let days = seconds / 86400;
    let hours = (seconds % 86400) / 3600;
    let minutes = (seconds % 3600) / 60;
    let secs = seconds % 60;
    let a = add_part(seq![], days, "day"@, "days"@);
    let b = add_part(a, hours, "hour"@, "hours"@);
    let c = add_part(b, minutes, "minute"@, "minutes"@);
    add_part(c, secs, "second"@, "seconds"@)
}

fn push_part(s: &mut String, n: u64, one: &str, many: &str)
    ensures
        final(s)@ == add_part(old(s)@, n as nat, one@, many@),
{
    if n == 0 {
        return ;
    }
    let was_empty = s.as_str().unicode_len() == 0;
    if !was_empty {
        push_char(s, ',');
        push_char(s, ' ');
    }
    let ghost before = s@;
    push_decimal(s, n);
    push_char(s, ' ');
    if n == 1 {
        push_str(s, one);
    } else {
        push_str(s, many);
    }
    proof {
        let part = decimal(n as nat) + seq![' '] + if n == 1 {
            one@
        } else {
            many@
        };
        assert(s@ =~= before + part);
        if !was_empty {
            assert(before =~= old(s)@ + seq![',', ' ']);
            assert(s@ =~= old(s)@ + seq![',', ' '] + part);
        } else {
            assert(before =~= seq![]);
        }
    }
}

/// The time from `start` to `end` in words, or `None` when either time is
/// invalid or `end` comes first.
pub fn readable_diff(start: Result<i64, MessageError>, end: Result<i64, MessageError>) -> (r: Option<
    String,
>)
    requires
        start matches Ok(a) ==> MIN_UNIX_SECONDS <= a <= MAX_UNIX_SECONDS,
        end matches Ok(b) ==> MIN_UNIX_SECONDS <= b <= MAX_UNIX_SECONDS,
    ensures
        match (start, end) {
            (Ok(a), Ok(b)) => if b >= a {
                r matches Some(s) && s@ == spec_diff_text((b - a) as nat)
            } else {
                r is None
            },
            _ => r is None,
        },
{
    let a = match start {
        Ok(a) => a,
        Err(_) => return None,
    };
    let b = match end {
        Ok(b) => b,
        Err(_) => return None,
    };
    if b < a {
        return None;
    }
    let seconds = (b - a) as u64;
    let mut out = String::new();
    push_part(&mut out, seconds / 86400, "day", "days");
    push_part(&mut out, (seconds % 86400) / 3600, "hour", "hours");
    push_part(&mut out, (seconds % 3600) / 60, "minute", "minutes");
    push_part(&mut out, seconds % 60, "second", "seconds");
    Some(out)
}

} // verus!
