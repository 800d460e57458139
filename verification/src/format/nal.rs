use vstd::prelude::*;
use crate::bytes::{sat, sat_add, has_tag, tag_at};
use crate::error::{eof, invalid_data, outcome, unexpected_eof, Failure, Result, RmpegError};
use crate::bits::{bits_fit, msb, two_pow, BitReader};
use crate::error::join3;

verus! {

/// The first start code (`00 00 01`, or `00 00 00 01`) at or after `from`: its position
/// and length.
pub open spec fn spec_start_code(b: Seq<u8>, from: int) -> Option<(int, int)>
    decreases b.len() - from,
{
    if from < 0 || from + 3 > b.len() {
        None
    } else if has_tag(b, from, seq![0x00u8, 0x00, 0x01]) {
        Some((from, 3))
    } else if has_tag(b, from, seq![0x00u8, 0x00, 0x00, 0x01]) {
        Some((from, 4))
    } else {
        spec_start_code(b, from + 1)
    }
}

/// The end of `b[start..end]` once its trailing zero bytes are cut.
pub open spec fn trimmed_end(b: Seq<u8>, start: int, end: int) -> int
    decreases end - start,
{
    if end > start && b[end - 1] == 0 { trimmed_end(b, start, end - 1) } else { end }
}

/// The next non-empty NAL unit at or after `pos`: its first byte, its end without
/// trailing zeros, and where the search goes on.
pub open spec fn spec_next_nal(b: Seq<u8>, pos: int) -> Option<(int, int, int)>
    decreases b.len() - pos,
{
    match spec_start_code(b, pos) {
        None => None,
        Some((start, len)) => {
            let nal_start = start + len;
            let nal_end = match spec_start_code(b, nal_start) {
                Some((next, _)) => next,
                None => b.len() as int,
            };
            let end = trimmed_end(b, nal_start, nal_end);
            if end > nal_start {
                Some((nal_start, end, nal_end))
            } else if pos < nal_end <= b.len() {
                spec_next_nal(b, nal_end)
            } else {
                None
            }
        },
    }
}

/// The raw byte sequence payload of `s`: each `03` that follows two zero bytes of the
/// output is dropped.
pub open spec fn spec_rbsp(s: Seq<u8>) -> Seq<u8>
    decreases s.len(),
{
    if s.len() == 0 {
        Seq::empty()
    } else {
        let r = spec_rbsp(s.drop_last());
        if s.last() == 3 && r.len() >= 2 && r[r.len() - 2] == 0 && r[r.len() - 1] == 0 {
            r
        } else {
            r.push(s.last())
        }
    }
}

/// The error of a read that runs past the end of `d`.
pub open spec fn end_of(d: Seq<u8>) -> Failure {
    eof(sat(d.len() as int + 1), d.len() as int)
}

/// `n` bits at `pos` and the position after them, or the end-of-data error; more than
/// 32 bits at once is invalid data.
pub open spec fn rd_bits(d: Seq<u8>, pos: int, n: int) -> core::result::Result<(int, int), Failure> {
    if n > 32 { Err(Failure::InvalidData) } else if bits_fit(d, pos, n) { Ok((msb(d, pos, n as nat), pos + n)) } else { Err(end_of(d)) }
}

/// The count of zero bits before the first one bit at `pos + k` on, up to 31.
pub open spec fn ue_zeros(d: Seq<u8>, pos: int, k: nat) -> core::result::Result<int, Failure>
    decreases 32 - k,
{
    if !bits_fit(d, pos + k, 1) {
        Err(end_of(d))
    } else if msb(d, pos + k, 1) == 1 {
        Ok(k as int)
    } else if k + 1 >= 32 {
        Err(Failure::InvalidData)
    } else {
        ue_zeros(d, pos, k + 1)
    }
}

/// An unsigned Exp-Golomb code at `pos`: its value and the position after it.
pub open spec fn spec_ue(d: Seq<u8>, pos: int) -> core::result::Result<(int, int), Failure> {
    match ue_zeros(d, pos, 0) {
        Err(e) => Err(e),
        Ok(z) => if z == 0 {
            Ok((0, pos + 1))
        } else {
            match rd_bits(d, pos + z + 1, z) {
                Err(e) => Err(e),
                Ok((suffix, p)) => Ok((two_pow(z as nat) - 1 + suffix, p)),
            }
        },
    }
}

/// A signed Exp-Golomb code at `pos`: its value and the position after it.
pub open spec fn spec_se(d: Seq<u8>, pos: int) -> core::result::Result<(int, int), Failure> {
    match spec_ue(d, pos) {
        Err(e) => Err(e),
        Ok((code, p)) => Ok((if code % 2 == 0 { -((code + 1) / 2) } else { (code + 1) / 2 }, p)),
    }
}

/// The first start code at or after `from`.
pub fn find_start_code(bytes: &[u8], from: usize) -> (r: Option<(usize, usize)>)
    ensures
        match r {
            Some((p, n)) => spec_start_code(bytes@, from as int) == Some((p as int, n as int)),
            None => spec_start_code(bytes@, from as int) is None,
        },
{
    let len = bytes.len();
    let mut pos = from;
    while pos <= len && len - pos >= 3
        invariant
            len == bytes@.len(),
            from <= pos,
            spec_start_code(bytes@, from as int) == spec_start_code(bytes@, pos as int),
        decreases len - pos,
    {
        if tag_at(bytes, pos, &[0x00u8, 0x00, 0x01]) {
            return Some((pos, 3));
        }
        if tag_at(bytes, pos, &[0x00u8, 0x00, 0x00, 0x01]) {
            return Some((pos, 4));
        }
        pos = pos + 1;
    }
    None
}

/// `bytes[start..end]` without its trailing zero bytes.
pub fn trim_trailing_zeros(bytes: &[u8], start: usize, end: usize) -> (r: usize)
    requires
        start <= end <= bytes@.len(),
    ensures
        r == trimmed_end(bytes@, start as int, end as int),
        start <= r <= end,
{
    let mut e = end;
    while e > start && bytes[e - 1] == 0
        invariant
            start <= e <= end <= bytes@.len(),
            trimmed_end(bytes@, start as int, end as int) == trimmed_end(bytes@, start as int, e as int),
        decreases e,
    {
        e = e - 1;
    }
    e
}

/// The raw byte sequence payload of an encapsulated NAL payload.
pub fn rbsp_from_ebsp(bytes: &[u8]) -> (out: Vec<u8>)
    ensures
        out@ == spec_rbsp(bytes@),
{
    let mut out: Vec<u8> = Vec::new();
    let mut i: usize = 0;
    while i < bytes.len()
        invariant
            i <= bytes@.len(),
            out@ == spec_rbsp(bytes@.take(i as int)),
        decreases bytes@.len() - i,
    {
        let b = bytes[i];
        assert(bytes@.take(i + 1).drop_last() =~= bytes@.take(i as int));
        let n = out.len();
        if !(b == 3 && n >= 2 && out[n - 2] == 0 && out[n - 1] == 0) {
            out.push(b);
        }
        i = i + 1;
    }
    assert(bytes@.take(i as int) =~= bytes@);
    out
}

/// The NAL units of an Annex B byte stream, one after another.
pub struct AnnexBNalUnits<'a> {
    bytes: &'a [u8],
    pos: usize,
}

impl<'a> View for AnnexBNalUnits<'a> {
    type V = (Seq<u8>, int);

    closed spec fn view(&self) -> (Seq<u8>, int) {
        (self.bytes@, self.pos as int)
    }
}

impl<'a> AnnexBNalUnits<'a> {
    /// The NAL units of `bytes`, from its start.
    pub fn new(bytes: &'a [u8]) -> (r: Self)
        ensures
            r@ == (bytes@, 0int),
    {
        AnnexBNalUnits { bytes, pos: 0 }
    }

    /// The next non-empty NAL unit, without its trailing zero bytes.
    pub fn next_unit(&mut self) -> (r: Option<&'a [u8]>)
        ensures
            final(self)@.0 == old(self)@.0,
            match spec_next_nal(old(self)@.0, old(self)@.1) {
                None => r is None,
                Some((s, e, p)) => r is Some && r->0@ == old(self)@.0.subrange(s, e) && final(self)@.1 == p,
            },
    {
        let ghost b = self.bytes@;
        let ghost p0 = self.pos as int;
        let len = self.bytes.len();
        loop
            invariant
                self.bytes@ == b,
                b == old(self)@.0,
                p0 == old(self)@.1,
                len == b.len(),
                spec_next_nal(b, p0) == spec_next_nal(b, self.pos as int),
            decreases len - self.pos,
        {
            let (start, code_len) = match find_start_code(self.bytes, self.pos) {
                Some(s) => s,
                None => return None,
            };
            proof {
                lemma_start_code_inside(b, self.pos as int);
            }
            let nal_start = start + code_len;
            let nal_end = match find_start_code(self.bytes, nal_start) {
                Some((next, _)) => next,
                None => len,
            };
            proof {
                lemma_start_code_inside(b, nal_start as int);
            }
            let end = trim_trailing_zeros(self.bytes, nal_start, nal_end);
            if end > nal_start {
                self.pos = nal_end;
                return Some(&self.bytes[nal_start..end]);
            }
            if !(self.pos < nal_end && nal_end <= len) {
                return None;
            }
            self.pos = nal_end;
        }
    }
}

/// A start code found at or after `from` lies inside `b` and not before `from`.
proof fn lemma_start_code_inside(b: Seq<u8>, from: int)
    ensures
        match spec_start_code(b, from) {
            Some((p, n)) => from <= p && p + n <= b.len() && (n == 3 || n == 4),
            None => true,
        },
    decreases b.len() - from,
{
    if from >= 0 && from + 3 <= b.len() && !has_tag(b, from, seq![0x00u8, 0x00, 0x01])
        && !has_tag(b, from, seq![0x00u8, 0x00, 0x00, 0x01]) {
        lemma_start_code_inside(b, from + 1);
    }
}

/// Reads `count` bits, failing with the end-of-data error past the end and with invalid
/// data for more than 32 bits.
pub fn read_bits(bits: &mut BitReader, count: usize) -> (r: Result<u32>)
    requires
        0 <= old(bits)@.1 <= old(bits)@.0.len() * 8,
    ensures
        final(bits)@.0 == old(bits)@.0,
        0 <= final(bits)@.1 <= final(bits)@.0.len() * 8,
        match rd_bits(old(bits)@.0, old(bits)@.1, count as int) {
            Ok((v, p)) => r == Ok::<u32, RmpegError>(v as u32) && final(bits)@.1 == p && 0 <= v <= u32::MAX,
            Err(e) => r is Err && outcome(r) == Err::<u32, Failure>(e),
        },
{
    if count > 32 {
        return Err(invalid_data("bit read is too large"));
    }
    proof {
        crate::bits::lemma_msb_bound(old(bits)@.0, old(bits)@.1, count as nat);
        crate::bits::lemma_two_pow_mono(count as nat, 32);
        crate::bits::lemma_two_pow_32();
    }
    match bits.read(count) {
        Some(v) => Ok(v),
        None => {
            let len = bits.byte_len();
            Err(unexpected_eof(sat_add(len, 1), len))
        },
    }
}

/// Reads one bit as a flag.
pub fn read_bool(bits: &mut BitReader) -> (r: Result<bool>)
    requires
        0 <= old(bits)@.1 <= old(bits)@.0.len() * 8,
    ensures
        final(bits)@.0 == old(bits)@.0,
        0 <= final(bits)@.1 <= final(bits)@.0.len() * 8,
        match rd_bits(old(bits)@.0, old(bits)@.1, 1) {
            Ok((v, p)) => r == Ok::<bool, RmpegError>(v == 1) && final(bits)@.1 == p && 0 <= v <= 1,
            Err(e) => r is Err && outcome(r) == Err::<bool, Failure>(e),
        },
{
    proof {
        crate::bits::lemma_msb_bound(old(bits)@.0, old(bits)@.1, 1);
        reveal_with_fuel(two_pow, 2);
    }
    match read_bits(bits, 1) {
        Ok(v) => Ok(v == 1),
        Err(e) => Err(e),
    }
}

/// Reads an unsigned Exp-Golomb code; `codec` names the stream in the error for a code
/// of 32 leading zeros or more.
pub fn read_ue(bits: &mut BitReader, codec: &str) -> (r: Result<u32>)
    requires
        0 <= old(bits)@.1 <= old(bits)@.0.len() * 8,
    ensures
        final(bits)@.0 == old(bits)@.0,
        0 <= final(bits)@.1 <= final(bits)@.0.len() * 8,
        match spec_ue(old(bits)@.0, old(bits)@.1) {
            Ok((v, p)) => r == Ok::<u32, RmpegError>(v as u32) && 0 <= v < u32::MAX && final(bits)@.1 == p,
            Err(e) => r is Err && outcome(r) == Err::<u32, Failure>(e),
        },
{
    let ghost d = bits@.0;
    let ghost p0 = bits@.1;
    let mut zeros: usize = 0;
    loop
        invariant_except_break
            bits@.1 == p0 + zeros,
            ue_zeros(d, p0, 0) == ue_zeros(d, p0, zeros as nat),
        invariant
            bits@.0 == d,
            d == old(bits)@.0,
            p0 == old(bits)@.1,
            zeros < 32,
            0 <= bits@.1 <= d.len() * 8,
        ensures
            bits@.1 == p0 + zeros + 1,
            ue_zeros(d, p0, 0) == Ok::<int, Failure>(zeros as int),
        decreases 32 - zeros,
    {
        let bit = match read_bool(bits) { Ok(b) => b, Err(e) => return Err(e) };
        if bit {
            break;
        }
        zeros = zeros + 1;
        if zeros >= 32 {
            return Err(RmpegError::InvalidData(join3(codec, " Exp-Golomb value is too large", "")));
        }
    }
    if zeros == 0 {
        return Ok(0);
    }
    let suffix = match read_bits(bits, zeros) { Ok(v) => v, Err(e) => return Err(e) };
    proof {
        crate::bits::lemma_msb_bound(d, p0 + zeros + 1, zeros as nat);
        crate::bits::lemma_two_pow_mono(zeros as nat, 31);
        reveal_with_fuel(two_pow, 32);
    }
    let base: u32 = pow2_u32(zeros);
    Ok(base - 1 + suffix)
}

/// `2^n` for `n` below 32.
fn pow2_u32(n: usize) -> (r: u32)
    requires
        n < 32,
    ensures
        r == two_pow(n as nat),
{
    let mut r: u32 = 1;
    let mut i: usize = 0;
    proof {
        crate::bits::lemma_two_pow_mono(0, 31);
    }
    while i < n
        invariant
            i <= n < 32,
            r == two_pow(i as nat),
            two_pow(i as nat) <= two_pow(31),
        decreases n - i,
    {
        proof {
            crate::bits::lemma_two_pow_mono((i + 1) as nat, 31);
            reveal_with_fuel(two_pow, 32);
        }
        r = r * 2;
        i = i + 1;
    }
    r
}

/// Reads a signed Exp-Golomb code.
pub fn read_se(bits: &mut BitReader, codec: &str) -> (r: Result<i64>)
    requires
        0 <= old(bits)@.1 <= old(bits)@.0.len() * 8,
    ensures
        final(bits)@.0 == old(bits)@.0,
        0 <= final(bits)@.1 <= final(bits)@.0.len() * 8,
        match spec_se(old(bits)@.0, old(bits)@.1) {
            Ok((v, p)) => r == Ok::<i64, RmpegError>(v as i64) && final(bits)@.1 == p && -0x8000_0000 < v < 0x8000_0000,
            Err(e) => r is Err && outcome(r) == Err::<i64, Failure>(e),
        },
{
    let code = match read_ue(bits, codec) { Ok(v) => v, Err(e) => return Err(e) };
    let magnitude = (code as i64 + 1) / 2;
    if code % 2 == 0 { Ok(-magnitude) } else { Ok(magnitude) }
}

/// The next NAL unit lies after `pos`, inside `b`, and the search goes on past it.
pub proof fn lemma_next_nal_advances(b: Seq<u8>, pos: int)
    requires
        0 <= pos,
    ensures
        match spec_next_nal(b, pos) {
            Some((s, e, p)) => pos < s < e <= p <= b.len(),
            None => true,
        },
    decreases b.len() - pos,
{
    lemma_start_code_inside(b, pos);
    match spec_start_code(b, pos) {
        None => {},
        Some((start, len)) => {
            let nal_start = start + len;
            lemma_start_code_inside(b, nal_start);
            let nal_end = match spec_start_code(b, nal_start) {
                Some((next, _)) => next,
                None => b.len() as int,
            };
            lemma_trimmed_end_bounds(b, nal_start, nal_end);
            let end = trimmed_end(b, nal_start, nal_end);
            if end <= nal_start && pos < nal_end <= b.len() {
                lemma_next_nal_advances(b, nal_end);
            }
        },
    }
}

/// Trimming keeps the end between the start and the untrimmed end.
pub proof fn lemma_trimmed_end_bounds(b: Seq<u8>, start: int, end: int)
    requires
        start <= end,
    ensures
        start <= trimmed_end(b, start, end) <= end,
    decreases end - start,
{
    if end > start && b[end - 1] == 0 {
        lemma_trimmed_end_bounds(b, start, end - 1);
    }
}

/// The position after skipping an unsigned Exp-Golomb code, once reading has not
/// failed before.
pub open spec fn then_ue(d: Seq<u8>, r: core::result::Result<int, Failure>) -> core::result::Result<int, Failure> {
    match r {
        Err(e) => Err(e),
        Ok(p) => match spec_ue(d, p) {
            Err(e) => Err(e),
            Ok((_, q)) => Ok(q),
        },
    }
}

/// The position after skipping a signed Exp-Golomb code, once reading has not failed.
pub open spec fn then_se(d: Seq<u8>, r: core::result::Result<int, Failure>) -> core::result::Result<int, Failure> {
    match r {
        Err(e) => Err(e),
        Ok(p) => match spec_se(d, p) {
            Err(e) => Err(e),
            Ok((_, q)) => Ok(q),
        },
    }
}

/// The position after skipping `n` bits, once reading has not failed.
pub open spec fn then_bits(d: Seq<u8>, r: core::result::Result<int, Failure>, n: int) -> core::result::Result<int, Failure> {
    match r {
        Err(e) => Err(e),
        Ok(p) => if bits_fit(d, p, n) { Ok(p + n) } else { Err(end_of(d)) },
    }
}

} // verus!
