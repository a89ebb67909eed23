//! The legacy pattern decoder: plain text framed by fixed byte markers.
//!
//! ```text
//! ... START_PATTERN timestamp(4 bytes, little-endian) PREFIX text END_PATTERN ...
//! ```
use vstd::prelude::*;

use crate::error::StreamTypedError;
use crate::parse::sub_bytes;
use crate::reader::le_value;
use crate::strings::{lossy_of, utf8_lossy};
use vstd::utf8::{decode_utf8, valid_utf8};

verus! {

/// The bytes that open the framed text: `SOH +`.
pub const START_PATTERN: [u8; 2] = [0x01, 0x2b];
/// The bytes that close the framed text.
pub const END_PATTERN: [u8; 2] = [0x86, 0x84];
/// The prefix byte expected right before the text.
pub const PREFIX: u8 = 0x01;
/// Width of the timestamp field.
pub const TIMESTAMP_WIDTH: usize = 4;
/// Timestamps are seconds, positive and below this bound.
pub const TIMESTAMP_LIMIT: u64 = 0x8000_0000;

/// The first index from `i` on where the byte pair `x y` starts.
pub open spec fn find_pair(b: Seq<u8>, x: u8, y: u8, i: int) -> Option<int>
    decreases b.len() - i,
{
    if i < 0 || i + 1 >= b.len() {
        None
    } else if b[i] == x && b[i + 1] == y {
        Some(i)
    } else {
        find_pair(b, x, y, i + 1)
    }
}

pub open spec fn valid_timestamp(t: nat) -> bool {
    0 < t && t < TIMESTAMP_LIMIT
}

/// The bytes of the framed text, or why there are none.
pub open spec fn spec_framed(b: Seq<u8>) -> Result<Seq<u8>, StreamTypedError> {
    match find_pair(b, 0x01, 0x2b, 0) {
        None => Err(StreamTypedError::NoStartPattern),
        Some(s) => {
            let t = s + 2;
            if t + TIMESTAMP_WIDTH > b.len() || !valid_timestamp(
                le_value(b.subrange(t, t + TIMESTAMP_WIDTH)),
            ) {
                Err(StreamTypedError::InvalidTimestamp)
            } else if t + TIMESTAMP_WIDTH >= b.len() || b[t + TIMESTAMP_WIDTH] != PREFIX {
                Err(StreamTypedError::InvalidPrefix)
            } else {
                let start = t + TIMESTAMP_WIDTH + 1;
                match find_pair(b, 0x86, 0x84, start) {
                    None => Err(StreamTypedError::NoEndPattern),
                    Some(e) => Ok(b.subrange(start, e)),
                }
            }
        },
    }
}

fn find_pair_exec(b: &Vec<u8>, x: u8, y: u8, from: usize) -> (r: Option<usize>)
    ensures
        match r {
            Some(i) => find_pair(b@, x, y, from as int) == Some(i as int),
            None => find_pair(b@, x, y, from as int) is None,
        },
        r matches Some(i) ==> from <= i && i + 1 < b@.len(),
{
    let mut i = from;
    while i < b.len() && i + 1 < b.len()
        invariant
            from <= i,
            find_pair(b@, x, y, from as int) == find_pair(b@, x, y, i as int),
        decreases b@.len() - i,
    {
        if b[i] == x && b[i + 1] == y {
            return Some(i);
        }
        i = i + 1;
    }
    None
}

/// Recovers the plain text framed by the legacy markers.
///
/// The result holds exactly the bytes between the prefix and the end
/// marker, never the markers themselves.
pub fn parse(stream: Vec<u8>) -> (r: Result<String, StreamTypedError>)
    ensures
        match r {
            Ok(s) => spec_framed(stream@) matches Ok(t) && s@ == lossy_of(t) && (valid_utf8(t)
                ==> s@ == decode_utf8(t)),
            Err(e) => spec_framed(stream@) == Err::<Seq<u8>, _>(e),
        },
{
    let b = &stream;
    let s = match find_pair_exec(b, 0x01, 0x2b, 0) {
        Some(s) => s,
        None => return Err(StreamTypedError::NoStartPattern),
    };
    let t = s + 2;
    if TIMESTAMP_WIDTH > b.len() - t {
        return Err(StreamTypedError::InvalidTimestamp);
    }
    let ts: u64 = b[t] as u64 + 256 * (b[t + 1] as u64 + 256 * (b[t + 2] as u64 + 256 * (
    b[t + 3] as u64)));
    proof {
        let w = b@.subrange(t as int, t + 4);
        reveal_with_fuel(le_value, 5);
        assert(w.drop_first() =~= b@.subrange(t + 1, t + 4));
        assert(w.drop_first().drop_first() =~= b@.subrange(t + 2, t + 4));
        assert(w.drop_first().drop_first().drop_first() =~= b@.subrange(t + 3, t + 4));
        assert(w.drop_first().drop_first().drop_first().drop_first() =~= seq![]);
    }
    if ts == 0 || ts >= TIMESTAMP_LIMIT {
        return Err(StreamTypedError::InvalidTimestamp);
    }
    let p = t + TIMESTAMP_WIDTH;
    if p >= b.len() || b[p] != PREFIX {
        return Err(StreamTypedError::InvalidPrefix);
    }
    let start = p + 1;
    let e = match find_pair_exec(b, 0x86, 0x84, start) {
        Some(e) => e,
        None => return Err(StreamTypedError::NoEndPattern),
    };
    let text = sub_bytes(b.as_slice(), start, e);
    Ok(utf8_lossy(text.as_slice()))
}

proof fn lemma_find_pair_first(b: Seq<u8>, x: u8, y: u8, i: int)
    requires
        i >= 0,
    ensures
        find_pair(b, x, y, i) matches Some(k) ==> {
            &&& i <= k && k + 1 < b.len()
            &&& b[k] == x && b[k + 1] == y
            &&& forall|m: int| i <= m < k ==> !(b[m] == x && #[trigger] b[m + 1] == y)
        },
        find_pair(b, x, y, i) is None ==> forall|m: int|
            i <= m && m + 1 < b.len() ==> !(b[m] == x && #[trigger] b[m + 1] == y),
    decreases b.len() - i,
{
    if i + 1 < b.len() && !(b[i] == x && b[i + 1] == y) {
        lemma_find_pair_first(b, x, y, i + 1);
    }
}

/// What the legacy decoder recovers is exactly the run of bytes between the
/// prefix that follows a start marker and the first end marker after it: it
/// contains no end marker, and both markers lie outside it.
pub proof fn lemma_framed_between_markers(b: Seq<u8>)
    ensures
        spec_framed(b) matches Ok(t) ==> ({
                let s = find_pair(b, 0x01, 0x2b, 0)->Some_0;
                let e = find_pair(b, 0x86, 0x84, s + 2 + TIMESTAMP_WIDTH + 1)->Some_0;
                &&& 0 <= s && s + 2 + TIMESTAMP_WIDTH + 1 <= e && e + 2 <= b.len()
                &&& b[s] == 0x01 && b[s + 1] == 0x2b
                &&& b[e] == 0x86 && b[e + 1] == 0x84
                &&& t == b.subrange(s + 2 + TIMESTAMP_WIDTH + 1, e)
                &&& forall|m: int| 0 <= m && m + 1 < t.len() ==> !(t[m] == 0x86 && #[trigger] t[m + 1] == 0x84)
            }),
{
    lemma_find_pair_first(b, 0x01, 0x2b, 0);
    if let Some(s) = find_pair(b, 0x01, 0x2b, 0) {
        let start = s + 2 + TIMESTAMP_WIDTH + 1;
        lemma_find_pair_first(b, 0x86, 0x84, start);
        if let Ok(t) = spec_framed(b) {
            let e = find_pair(b, 0x86, 0x84, start)->Some_0;
            assert forall|m: int| 0 <= m && m + 1 < t.len() implies !(t[m] == 0x86 && #[trigger] t[m
                + 1] == 0x84) by {
                assert(t[m] == b[start + m] && t[m + 1] == b[start + m + 1]);
            }
            assert(b[s] == 0x01 && b[s + 1] == 0x2b);
        }
    }
}

} // verus!
