use vstd::prelude::*;
use crate::error::{eof, failure, outcome, Failure, Result};

verus! {


/// Little-endian unsigned value of the two bytes of `b` at `p`.
pub open spec fn u16_le(b: Seq<u8>, p: int) -> int {
    b[p] + 256 * b[p + 1]
}

/// Big-endian unsigned value of the two bytes of `b` at `p`.
pub open spec fn u16_be(b: Seq<u8>, p: int) -> int {
    256 * b[p] + b[p + 1]
}

/// Little-endian unsigned value of the four bytes of `b` at `p`.
pub open spec fn u32_le(b: Seq<u8>, p: int) -> int {
    u16_le(b, p) + 65536 * u16_le(b, p + 2)
}

/// Big-endian unsigned value of the four bytes of `b` at `p`.
pub open spec fn u32_be(b: Seq<u8>, p: int) -> int {
    65536 * u16_be(b, p) + u16_be(b, p + 2)
}

/// Little-endian unsigned value of the eight bytes of `b` at `p`.
pub open spec fn u64_le(b: Seq<u8>, p: int) -> int {
    u32_le(b, p) + 4294967296 * u32_le(b, p + 4)
}

/// Big-endian unsigned value of the eight bytes of `b` at `p`.
pub open spec fn u64_be(b: Seq<u8>, p: int) -> int {
    4294967296 * u32_be(b, p) + u32_be(b, p + 4)
}

/// Two's-complement reading of a 32-bit unsigned value.
pub open spec fn as_signed32(v: int) -> int {
    if v < 0x8000_0000 { v } else { v - 0x1_0000_0000 }
}

/// Two's-complement reading of a 16-bit unsigned value.
pub open spec fn as_signed16(v: int) -> int {
    if v < 0x8000 { v } else { v - 0x1_0000 }
}

/// Whether `b` holds the four bytes `tag` at `p`.
pub open spec fn has_tag(b: Seq<u8>, p: int, tag: Seq<u8>) -> bool {
    0 <= p && p + tag.len() <= b.len() && b.subrange(p, p + tag.len()) == tag
}

/// The exact product of two 64-bit values.
pub fn wide_mul(a: u64, b: u64) -> (r: u128)
    ensures
        r == a as int * b as int,
{
    proof {
        assert(a as int * b as int <= 0xffff_ffff_ffff_ffff * 0xffff_ffff_ffff_ffff) by (nonlinear_arith)
            requires
                a <= 0xffff_ffff_ffff_ffffu64,
                b <= 0xffff_ffff_ffff_ffffu64,
        ;
        assert(0 <= a as int * b as int) by (nonlinear_arith);
    }
    a as u128 * b as u128
}

/// `x`, or the largest `usize` when `x` is larger.
pub open spec fn sat(x: int) -> int {
    if x > usize::MAX { usize::MAX as int } else { x }
}

/// The sum of two sizes, saturated at the largest `usize`.
pub fn sat_add(a: usize, b: usize) -> (r: usize)
    ensures
        r == sat(a + b),
{
    if a > usize::MAX - b { usize::MAX } else { a + b }
}

/// Little-endian u16 at `p` of a slice whose bounds the caller has checked.
pub fn le16(b: &[u8], p: usize) -> (r: u16)
    requires
        p + 2 <= b.len(),
    ensures
        r == u16_le(b@, p as int),
{
    b[p] as u16 + (b[p + 1] as u16) * 256
}

/// Big-endian u16 at `p` of a slice whose bounds the caller has checked.
pub fn be16(b: &[u8], p: usize) -> (r: u16)
    requires
        p + 2 <= b.len(),
    ensures
        r == u16_be(b@, p as int),
{
    (b[p] as u16) * 256 + b[p + 1] as u16
}

/// Little-endian u32 at `p` of a slice whose bounds the caller has checked.
pub fn le32(b: &[u8], p: usize) -> (r: u32)
    requires
        p + 4 <= b.len(),
    ensures
        r == u32_le(b@, p as int),
{
    le16(b, p) as u32 + (le16(b, p + 2) as u32) * 65536
}

/// Big-endian u32 at `p` of a slice whose bounds the caller has checked.
pub fn be32(b: &[u8], p: usize) -> (r: u32)
    requires
        p + 4 <= b.len(),
    ensures
        r == u32_be(b@, p as int),
{
    (be16(b, p) as u32) * 65536 + be16(b, p + 2) as u32
}

/// Little-endian u64 at `p` of a slice whose bounds the caller has checked.
pub fn le64(b: &[u8], p: usize) -> (r: u64)
    requires
        p + 8 <= b.len(),
    ensures
        r == u64_le(b@, p as int),
{
    le32(b, p) as u64 + (le32(b, p + 4) as u64) * 4294967296
}

/// Big-endian u64 at `p` of a slice whose bounds the caller has checked.
pub fn be64(b: &[u8], p: usize) -> (r: u64)
    requires
        p + 8 <= b.len(),
    ensures
        r == u64_be(b@, p as int),
{
    (be32(b, p) as u64) * 4294967296 + be32(b, p + 4) as u64
}

/// Two's-complement conversion of a 32-bit pattern.
pub fn to_i32(v: u32) -> (r: i32)
    ensures
        r == as_signed32(v as int),
{
    if v < 0x8000_0000 {
        v as i32
    } else {
        ((v - 0x8000_0000) as i32) + i32::MIN
    }
}

/// Two's-complement conversion of a 16-bit pattern.
pub fn to_i16(v: u16) -> (r: i16)
    ensures
        r == as_signed16(v as int),
{
    if v < 0x8000 {
        v as i16
    } else {
        ((v - 0x8000) as i16) + i16::MIN
    }
}

/// Whether `b` holds `tag` at `p`.
pub fn tag_at(b: &[u8], p: usize, tag: &[u8]) -> (r: bool)
    ensures
        r == has_tag(b@, p as int, tag@),
{
    if p > b.len() || tag.len() > b.len() - p {
        return false;
    }
    let mut i: usize = 0;
    while i < tag.len()
        invariant
            i <= tag@.len(),
            p + tag.len() <= b.len(),
            forall|j: int| 0 <= j < i ==> b@[p + j] == tag@[j],
        decreases tag@.len() - i,
    {
        if b[p + i] != tag[i] {
            assert(b@.subrange(p as int, p + tag@.len())[i as int] != tag@[i as int]);
            return false;
        }
        i += 1;
    }
    assert(b@.subrange(p as int, p + tag@.len()) =~= tag@);
    true
}

/// The outcome of a checked read of `width` bytes at `pos` whose value would be `v`.
pub open spec fn read_result(b: Seq<u8>, pos: int, width: int, v: int) -> core::result::Result<int, Failure> {
    if pos + width <= b.len() {
        Ok(v)
    } else {
        Err(eof(pos + width, b.len() as int))
    }
}

/// A checked read's result with the value widened to an integer.
pub open spec fn read_outcome16(r: Result<u16>) -> core::result::Result<int, Failure> {
    match r {
        Ok(v) => Ok(v as int),
        Err(e) => Err(failure(e)),
    }
}

/// A checked read's result with the value widened to an integer.
pub open spec fn read_outcome32(r: Result<u32>) -> core::result::Result<int, Failure> {
    match r {
        Ok(v) => Ok(v as int),
        Err(e) => Err(failure(e)),
    }
}

/// A checked read's result with the value widened to an integer.
pub open spec fn read_outcome_i32(r: Result<i32>) -> core::result::Result<int, Failure> {
    match r {
        Ok(v) => Ok(v as int),
        Err(e) => Err(failure(e)),
    }
}

/// A checked read's result with the value widened to an integer.
pub open spec fn read_outcome64(r: Result<u64>) -> core::result::Result<int, Failure> {
    match r {
        Ok(v) => Ok(v as int),
        Err(e) => Err(failure(e)),
    }
}

/// Whether `p` is the first position of `b` at which `t` occurs.
pub open spec fn is_first_tag(b: Seq<u8>, t: Seq<u8>, p: int) -> bool {
    has_tag(b, p, t) && forall|q: int| 0 <= q < p ==> !#[trigger] has_tag(b, q, t)
}

/// The first position of `b` at which `t` occurs, if it occurs at all.
pub open spec fn first_tag(b: Seq<u8>, t: Seq<u8>) -> Option<int> {
    if exists|p: int| is_first_tag(b, t, p) {
        Some(choose|p: int| is_first_tag(b, t, p))
    } else {
        None
    }
}

/// There is only one first occurrence.
pub proof fn lemma_first_tag_unique(b: Seq<u8>, t: Seq<u8>, p: int)
    requires
        is_first_tag(b, t, p),
    ensures
        first_tag(b, t) == Some(p),
{
    let c = choose|q: int| is_first_tag(b, t, q);
    assert(is_first_tag(b, t, c));
    if c < p {
        assert(!has_tag(b, c, t));
    } else if p < c {
        assert(!has_tag(b, p, t));
    }
}

/// The position `first_tag` gives is the first occurrence.
pub proof fn lemma_first_tag_found(b: Seq<u8>, t: Seq<u8>, p: int)
    requires
        first_tag(b, t) == Some(p),
    ensures
        is_first_tag(b, t, p),
        0 <= p,
        p + t.len() <= b.len(),
{
}

/// The first position of `hay` at which `needle` occurs; a search by sliding window.
pub fn find_tag(hay: &[u8], needle: &[u8]) -> (r: Option<usize>)
    requires
        needle@.len() > 0,
    ensures
        match r {
            Some(p) => first_tag(hay@, needle@) == Some(p as int),
            None => first_tag(hay@, needle@) is None,
        },
{
    if needle.len() > hay.len() {
        assert forall|p: int| !is_first_tag(hay@, needle@, p) by {
        }
        return None;
    }
    let last = hay.len() - needle.len();
    let mut i: usize = 0;
    while i <= last
        invariant
            last == hay.len() - needle.len(),
            needle.len() > 0,
            i <= last + 1,
            forall|q: int| 0 <= q < i ==> !#[trigger] has_tag(hay@, q, needle@),
        decreases last + 1 - i,
    {
        if tag_at(hay, i, needle) {
            proof {
                lemma_first_tag_unique(hay@, needle@, i as int);
            }
            return Some(i);
        }
        i += 1;
    }
    assert forall|p: int| !is_first_tag(hay@, needle@, p) by {
        if 0 <= p < i {
        } else if p >= i {
            assert(!has_tag(hay@, p, needle@));
        }
    }
    None
}


/// Appends the bytes of `s` to `out`.
pub fn append_bytes(out: &mut Vec<u8>, s: &[u8])
    ensures
        final(out)@ == old(out)@ + s@,
{
    let mut i: usize = 0;
    while i < s.len()
        invariant
            i <= s@.len(),
            out@ == old(out)@ + s@.take(i as int),
        decreases s@.len() - i,
    {
        out.push(s[i]);
        assert(s@.take(i + 1) =~= s@.take(i as int).push(s@[i as int]));
        i += 1;
    }
    assert(s@.take(i as int) =~= s@);
}

/// A vector of `n` zero bytes.
pub fn zeros(n: usize) -> (v: Vec<u8>)
    ensures
        v@ == Seq::new(n as nat, |i: int| 0u8),
{
    let mut v: Vec<u8> = Vec::new();
    let mut i: usize = 0;
    while i < n
        invariant
            i <= n,
            v@ == Seq::new(i as nat, |k: int| 0u8),
        decreases n - i,
    {
        v.push(0);
        assert(v@ =~= Seq::new((i + 1) as nat, |k: int| 0u8));
        i += 1;
    }
    v
}

} // verus!
