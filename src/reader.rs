//! Primitive reads over an archive buffer: integers in their variable-width
//! encoding and length-prefixed byte payloads.
use vstd::prelude::*;

use crate::error::DecodeError;

verus! {

/// Marker: a 16-bit little-endian integer follows.
pub const I_16: u8 = 0x81;
/// Marker: a 32-bit little-endian integer follows.
pub const I_32: u8 = 0x82;
/// Marker: a 64-bit little-endian integer follows.
pub const I_64: u8 = 0x83;
/// Marker: a new item (type string, object or class) follows.
pub const START: u8 = 0x84;
/// Marker: the root of a class chain.
pub const EMPTY: u8 = 0x85;
/// Marker: the end of the stream.
pub const END: u8 = 0x86;
/// Bytes from this one up are back-references, index `byte - REFERENCE_TAG`.
pub const REFERENCE_TAG: u8 = 0x92;

/// Little-endian value of a byte sequence.
pub open spec fn le_value(s: Seq<u8>) -> nat
    decreases s.len(),
{
    if s.len() == 0 {
        0
    } else {
        s[0] as nat + 256 * le_value(s.drop_first())
    }
}

pub open spec fn pow256(n: nat) -> nat
    decreases n,
{
    if n == 0 {
        1
    } else {
        256 * pow256((n - 1) as nat)
    }
}

/// Whether `m` announces a wide integer.
pub open spec fn is_wide(m: u8) -> bool {
    I_16 <= m && m <= I_64
}

/// Whether `m` is a structural marker that may not start an integer.
pub open spec fn is_structural(m: u8) -> bool {
    START <= m && m <= END
}

/// Number of bytes that follow a wide-integer marker.
pub open spec fn width_of(m: u8) -> nat {
    if m == I_16 {
        2
    } else if m == I_32 {
        4
    } else {
        8
    }
}

/// Two's-complement reading of an unsigned value `v` of `w` bytes.
pub open spec fn signed_of(v: nat, w: nat) -> int {
    if v < pow256(w) / 2 {
        v as int
    } else {
        v - pow256(w)
    }
}

/// Moves the position of a successful read from `usize` to `int`.
pub open spec fn lift<T>(r: Result<(T, usize), DecodeError>) -> Result<(T, int), DecodeError> {
    match r {
        Ok((v, q)) => Ok((v, q as int)),
        Err(e) => Err(e),
    }
}

/// The unsigned integer encoded at `p`, and the position after it.
pub open spec fn spec_unsigned(b: Seq<u8>, p: int) -> Result<(u64, int), DecodeError> {
    if p < 0 || p >= b.len() {
        Err(DecodeError::TruncatedInput)
    } else if is_wide(b[p]) {
        let w = width_of(b[p]);
        if p + 1 + w > b.len() {
            Err(DecodeError::TruncatedInput)
        } else {
            Ok((le_value(b.subrange(p + 1, p + 1 + w)) as u64, p + 1 + w))
        }
    } else if is_structural(b[p]) {
        Err(DecodeError::UnexpectedMarker)
    } else {
        Ok((b[p] as u64, p + 1))
    }
}

/// The signed integer encoded at `p`, and the position after it.
pub open spec fn spec_signed(b: Seq<u8>, p: int) -> Result<(i64, int), DecodeError> {
    if p < 0 || p >= b.len() {
        Err(DecodeError::TruncatedInput)
    } else if is_wide(b[p]) {
        let w = width_of(b[p]);
        if p + 1 + w > b.len() {
            Err(DecodeError::TruncatedInput)
        } else {
            Ok((signed_of(le_value(b.subrange(p + 1, p + 1 + w)), w) as i64, p + 1 + w))
        }
    } else if is_structural(b[p]) {
        Err(DecodeError::UnexpectedMarker)
    } else {
        Ok((signed_of(b[p] as nat, 1) as i64, p + 1))
    }
}

/// A length-prefixed byte payload at `p`, and the position after it.
pub open spec fn spec_blob(b: Seq<u8>, p: int) -> Result<(Seq<u8>, int), DecodeError> {
    match spec_unsigned(b, p) {
        Err(e) => Err(e),
        Ok((n, q)) => if q + n > b.len() {
            Err(DecodeError::TruncatedInput)
        } else {
            Ok((b.subrange(q, q + n), q + n))
        },
    }
}

proof fn lemma_pow256_facts()
    ensures
        pow256(1) == 0x100,
        pow256(2) == 0x1_0000,
        pow256(4) == 0x1_0000_0000,
        pow256(8) == 0x1_0000_0000_0000_0000,
{
    reveal_with_fuel(pow256, 9);
}

proof fn lemma_pow256_mono(a: nat, b: nat)
    requires
        a <= b,
    ensures
        pow256(a) <= pow256(b),
    decreases b,
{
    if a < b {
        lemma_pow256_mono(a, (b - 1) as nat);
    }
}

proof fn lemma_le_value_bound(s: Seq<u8>)
    ensures
        le_value(s) < pow256(s.len()),
    decreases s.len(),
{
    if s.len() > 0 {
        lemma_le_value_bound(s.drop_first());
        let r = le_value(s.drop_first());
        assert(s[0] as nat + 256 * r < 256 * pow256((s.len() - 1) as nat)) by (nonlinear_arith)
            requires
                s[0] < 256,
                r < pow256((s.len() - 1) as nat),
        ;
    }
}

/// Reads `w` bytes at `p` as a little-endian integer.
fn read_le(b: &[u8], p: usize, w: usize) -> (r: u64)
    requires
        w <= 8,
        p + w <= b@.len(),
    ensures
        r as nat == le_value(b@.subrange(p as int, p + w)),
{
    let mut v: u64 = 0;
    let mut i: usize = w;
    let _len = b.len();
    while i > 0
        invariant
            b@.len() <= usize::MAX,
            i <= w,
            w <= 8,
            p + w <= b@.len(),
            v as nat == le_value(b@.subrange(p + i, p + w)),
        decreases i,
    {
        i = i - 1;
        proof {
            let s = b@.subrange(p + i, p + w);
            assert(s.drop_first() =~= b@.subrange(p + i + 1, p + w));
            lemma_le_value_bound(b@.subrange(p + i + 1, p + w));
            lemma_pow256_mono((w - i - 1) as nat, 7);
            lemma_pow256_facts();
            assert(pow256((w - i - 1) as nat) <= 0x100_0000_0000_0000) by {
                reveal_with_fuel(pow256, 8);
            }
            assert(v * 256 + 255 < 0x1_0000_0000_0000_0000) by (nonlinear_arith)
                requires
                    v < 0x100_0000_0000_0000,
            ;
        }
        let x = b[p + i] as u64;
        v = v * 256 + x;
    }
    v
}

/// Reads the unsigned integer at `p`.
pub fn read_unsigned(b: &[u8], p: usize) -> (r: Result<(u64, usize), DecodeError>)
    ensures
        lift(r) == spec_unsigned(b@, p as int),
{
    if p >= b.len() {
        return Err(DecodeError::TruncatedInput);
    }
    let m = b[p];
    if I_16 <= m && m <= I_64 {
        let w: usize = if m == I_16 {
            2
        } else if m == I_32 {
            4
        } else {
            8
        };
        if w > b.len() - p - 1 {
            return Err(DecodeError::TruncatedInput);
        }
        let v = read_le(b, p + 1, w);
        proof {
            lemma_le_value_bound(b@.subrange(p + 1, p + 1 + w));
            lemma_pow256_facts();
        }
        Ok((v, p + 1 + w))
    } else if START <= m && m <= END {
        Err(DecodeError::UnexpectedMarker)
    } else {
        Ok((m as u64, p + 1))
    }
}

/// Two's-complement reading of a `w`-byte value.
fn to_signed(v: u64, w: usize) -> (r: i64)
    requires
        w == 1 || w == 2 || w == 4 || w == 8,
        (v as nat) < pow256(w as nat),
    ensures
        r as int == signed_of(v as nat, w as nat),
{
    proof {
        lemma_pow256_facts();
    }
    if w == 8 {
        if v < 0x8000_0000_0000_0000 {
            v as i64
        } else {
            let low = (v - 0x8000_0000_0000_0000) as i64;
            low - 0x7fff_ffff_ffff_ffff - 1
        }
    } else {
        let full: u64 = if w == 1 {
            0x100
        } else if w == 2 {
            0x1_0000
        } else {
            0x1_0000_0000
        };
        if v < full / 2 {
            v as i64
        } else {
            v as i64 - full as i64
        }
    }
}

/// Reads the signed integer at `p`.
pub fn read_signed(b: &[u8], p: usize) -> (r: Result<(i64, usize), DecodeError>)
    ensures
        lift(r) == spec_signed(b@, p as int),
{
    if p >= b.len() {
        return Err(DecodeError::TruncatedInput);
    }
    let m = b[p];
    proof {
        lemma_pow256_facts();
    }
    if I_16 <= m && m <= I_64 {
        let w: usize = if m == I_16 {
            2
        } else if m == I_32 {
            4
        } else {
            8
        };
        if w > b.len() - p - 1 {
            return Err(DecodeError::TruncatedInput);
        }
        let v = read_le(b, p + 1, w);
        proof {
            lemma_le_value_bound(b@.subrange(p + 1, p + 1 + w));
        }
        Ok((to_signed(v, w), p + 1 + w))
    } else if START <= m && m <= END {
        Err(DecodeError::UnexpectedMarker)
    } else {
        Ok((to_signed(m as u64, 1), p + 1))
    }
}

/// Reads the length-prefixed byte payload at `p`.
pub fn read_blob(b: &[u8], p: usize) -> (r: Result<(Vec<u8>, usize), DecodeError>)
    ensures
        match r {
            Ok((v, q)) => spec_blob(b@, p as int) == Ok::<(Seq<u8>, int), DecodeError>((v@, q as int)),
            Err(e) => spec_blob(b@, p as int) == Err::<(Seq<u8>, int), DecodeError>(e),
        },
{
    let (n, q) = read_unsigned(b, p)?;
    if n > (b.len() - q) as u64 {
        return Err(DecodeError::TruncatedInput);
    }
    let end = q + n as usize;
    let mut out: Vec<u8> = Vec::new();
    let mut i: usize = q;
    while i < end
        invariant
            q <= i <= end,
            end <= b@.len(),
            out@ == b@.subrange(q as int, i as int),
        decreases end - i,
    {
        out.push(b[i]);
        i = i + 1;
        proof {
            assert(out@ =~= b@.subrange(q as int, i as int));
        }
    }
    Ok((out, end))
}

} // verus!
