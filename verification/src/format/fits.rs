use vstd::prelude::*;
use crate::bytes::{has_tag, tag_at};
use crate::error::{invalid_data, Failure, Result};
use crate::metadata::{probe_outcome, video_stream, zero_secs, zero_seconds, Probe, ProbeDocument, StreamMetadata};

verus! {

/// Whether `c` is ASCII whitespace as `str::trim` sees it (space, tab, line feed,
/// vertical tab, form feed, carriage return).
pub open spec fn ascii_ws(c: u8) -> bool {
    c == 32 || (9 <= c <= 13)
}

/// The first position at or after `i` that does not hold whitespace.
pub open spec fn lead_from(s: Seq<u8>, i: int) -> int
    decreases s.len() - i,
{
    if 0 <= i < s.len() && ascii_ws(s[i]) { lead_from(s, i + 1) } else { i }
}

/// The end of `s` once whitespace before `j` (and after `lo`) is dropped.
pub open spec fn trail_to(s: Seq<u8>, lo: int, j: int) -> int
    decreases j - lo,
{
    if lo < j <= s.len() && ascii_ws(s[j - 1]) { trail_to(s, lo, j - 1) } else { j }
}

/// `s` without leading and trailing whitespace.
pub open spec fn trimmed(s: Seq<u8>) -> Seq<u8> {
    s.subrange(lead_from(s, 0), trail_to(s, lead_from(s, 0), s.len() as int))
}

/// The decimal value of the digits `s`, capped at 2^64.
pub open spec fn digits_capped(s: Seq<u8>) -> int
    decreases s.len(),
{
    if s.len() == 0 {
        0
    } else {
        let v = 10 * digits_capped(s.drop_last()) + (s.last() - 48);
        if v > 0x1_0000_0000_0000_0000 { 0x1_0000_0000_0000_0000 } else { v }
    }
}

/// Whether every byte of `s` is an ASCII digit.
pub open spec fn all_digits(s: Seq<u8>) -> bool {
    forall|i: int| 0 <= i < s.len() ==> 48 <= #[trigger] s[i] <= 57
}

/// The signed 64-bit integer `s` spells (an optional sign, then at least one digit).
pub open spec fn parse_i64_spec(s: Seq<u8>) -> Option<int> {
    let neg = s.len() > 0 && s[0] == 45;
    let body = if s.len() > 0 && (s[0] == 45 || s[0] == 43) { s.skip(1) } else { s };
    let v = digits_capped(body);
    if body.len() == 0 || !all_digits(body) {
        None
    } else if neg {
        if v > 0x8000_0000_0000_0000 { None } else { Some(-v) }
    } else {
        if v > 0x7fff_ffff_ffff_ffff { None } else { Some(v) }
    }
}

/// The value of a FITS card `c` (its "=" in column 9, its value in columns 11 to 30)
/// as an unsigned 32-bit integer.
pub open spec fn fits_card_u32(c: Seq<u8>) -> Option<u32> {
    if c.len() < 30 || c[8] != 61 {
        None
    } else {
        match parse_i64_spec(trimmed(c.subrange(10, 30))) {
            Some(v) => if 0 <= v <= u32::MAX { Some(v as u32) } else { None },
            None => None,
        }
    }
}

/// Width and height found reading the header cards from card `i` (at most 72, stopping
/// at "END" or a partial card).
pub open spec fn fits_walk(b: Seq<u8>, i: int, w: Option<u32>, h: Option<u32>) -> (Option<u32>, Option<u32>)
    decreases 72 - i,
{
    let card = b.subrange(80 * i, 80 * i + 80);
    let key = trimmed(card.subrange(0, 8));
    if i < 0 || i >= 72 || 80 * i + 80 > b.len() || key == seq![0x45u8, 0x4e, 0x44] {
        (w, h)
    } else if key == seq![0x4eu8, 0x41, 0x58, 0x49, 0x53, 0x31] {
        fits_walk(b, i + 1, fits_card_u32(card), h)
    } else if key == seq![0x4eu8, 0x41, 0x58, 0x49, 0x53, 0x32] {
        fits_walk(b, i + 1, w, fits_card_u32(card))
    } else {
        fits_walk(b, i + 1, w, h)
    }
}

/// The probe of a FITS image: NAXIS1 and NAXIS2 from the primary header.
pub open spec fn spec_parse_fits(b: Seq<u8>) -> core::result::Result<Probe, Failure> {
    let dims = fits_walk(b, 0, None, None);
    if !has_tag(b, 0, seq![0x53u8, 0x49, 0x4d, 0x50, 0x4c, 0x45, 0x20, 0x20]) {
        Err(Failure::InvalidData)
    } else {
        match dims {
            (Some(w), Some(h)) => if w != 0 && h != 0 {
                Ok(Probe { format: "fits", streams: seq![video_stream(0, "fits", w as int, h as int, Some(zero_secs()), None)] })
            } else {
                Err(Failure::InvalidData)
            },
            _ => Err(Failure::InvalidData),
        }
    }
}

/// Probes a FITS image.
pub fn parse_fits(bytes: &[u8]) -> (r: Result<ProbeDocument>)
    ensures
        probe_outcome(r) == spec_parse_fits(bytes@),
{
    if !looks_like_fits(bytes) {
        return Err(invalid_data("missing FITS header"));
    }
    let mut width: Option<u32> = None;
    let mut height: Option<u32> = None;
    let mut i: usize = 0;
    while i < 72
        invariant_except_break
            fits_walk(bytes@, 0, None, None) == fits_walk(bytes@, i as int, width, height),
        invariant
            i <= 72,
        ensures
            fits_walk(bytes@, 0, None, None) == (width, height),
        decreases 72 - i,
    {
        let start = 80 * i;
        if start > bytes.len() || bytes.len() - start < 80 {
            break;
        }
        let card = &bytes[start..start + 80];
        let (lo, hi) = trim_range(card, 0, 8);
        assert(card@.subrange(0, 8).subrange(lo as int, hi as int) =~= card@.subrange(lo as int, hi as int));
        let key = &card[lo..hi];
        if key_is(key, &[0x45u8, 0x4e, 0x44]) {
            break;
        }
        if key_is(key, &[0x4eu8, 0x41, 0x58, 0x49, 0x53, 0x31]) {
            width = parse_card_u32(card);
        } else if key_is(key, &[0x4eu8, 0x41, 0x58, 0x49, 0x53, 0x32]) {
            height = parse_card_u32(card);
        }
        i += 1;
    }
    match (width, height) {
        (Some(w), Some(h)) => {
            if w != 0 && h != 0 {
                Ok(ProbeDocument::single("fits", StreamMetadata::video(0, "fits", w, h, Some(zero_seconds()), None)))
            } else {
                Err(invalid_data("FITS image dimensions were not found"))
            }
        },
        _ => Err(invalid_data("FITS image dimensions were not found")),
    }
}

/// Whether `bytes` starts with the FITS primary header keyword "SIMPLE  ".
pub fn looks_like_fits(bytes: &[u8]) -> (r: bool)
    ensures
        r == has_tag(bytes@, 0, seq![0x53u8, 0x49, 0x4d, 0x50, 0x4c, 0x45, 0x20, 0x20]),
{
    tag_at(bytes, 0, &[0x53u8, 0x49, 0x4d, 0x50, 0x4c, 0x45, 0x20, 0x20])
}

/// Whether `key` is exactly `want`.
fn key_is(key: &[u8], want: &[u8]) -> (r: bool)
    ensures
        r == (key@ == want@),
{
    if key.len() != want.len() {
        return false;
    }
    let r = tag_at(key, 0, want);
    assert(key@.subrange(0, want@.len() as int) =~= key@);
    r
}

/// The bounds of `s[from..to]` without surrounding whitespace, as positions in `s`.
fn trim_range(s: &[u8], from: usize, to: usize) -> (r: (usize, usize))
    requires
        from <= to <= s@.len(),
    ensures
        from <= r.0 <= r.1 <= to,
        s@.subrange(from as int, to as int).subrange(r.0 - from, r.1 - from)
            == trimmed(s@.subrange(from as int, to as int)),
{
    let ghost t = s@.subrange(from as int, to as int);
    let mut lo = from;
    while lo < to && (s[lo] == 32 || (9 <= s[lo] && s[lo] <= 13))
        invariant
            from <= lo <= to,
            to <= s@.len(),
            t == s@.subrange(from as int, to as int),
            lead_from(t, 0) == lead_from(t, lo - from),
        decreases to - lo,
    {
        lo += 1;
    }
    let mut hi = to;
    while hi > lo && (s[hi - 1] == 32 || (9 <= s[hi - 1] && s[hi - 1] <= 13))
        invariant
            from <= lo <= hi <= to,
            to <= s@.len(),
            t == s@.subrange(from as int, to as int),
            lead_from(t, 0) == lo - from,
            trail_to(t, lo - from, t.len() as int) == trail_to(t, lo - from, hi - from),
        decreases hi - lo,
    {
        assert(t[hi - 1 - from] == s@[hi - 1]);
        hi -= 1;
    }
    (lo, hi)
}

fn parse_card_u32(card: &[u8]) -> (r: Option<u32>)
    requires
        card@.len() == 80,
    ensures
        r == fits_card_u32(card@),
{
    if card[8] != 61 {
        return None;
    }
    let (lo, hi) = trim_range(card, 10, 30);
    let text = &card[lo..hi];
    assert(text@ =~= trimmed(card@.subrange(10, 30)));
    match parse_i64(text) {
        Some(v) => if 0 <= v && v <= u32::MAX as i64 { Some(v as u32) } else { None },
        None => None,
    }
}

/// The signed 64-bit integer that `s` spells, as `str::parse::<i64>` reads it.
fn parse_i64(s: &[u8]) -> (r: Option<i64>)
    ensures
        match r {
            Some(v) => parse_i64_spec(s@) == Some(v as int),
            None => parse_i64_spec(s@) is None,
        },
{
    if s.len() == 0 {
        return None;
    }
    let neg = s[0] == 45;
    let start: usize = if s[0] == 45 || s[0] == 43 { 1 } else { 0 };
    let ghost body = if s@[0] == 45 || s@[0] == 43 { s@.skip(1) } else { s@ };
    if start == s.len() {
        return None;
    }
    let mut acc: u128 = 0;
    let mut i = start;
    while i < s.len()
        invariant
            start <= i <= s@.len(),
            start == s@.len() - body.len(),
            body == s@.subrange(start as int, s@.len() as int),
            acc == digits_capped(body.take(i - start)),
            acc <= 0x1_0000_0000_0000_0000,
            all_digits(body.take(i - start)),
            s@.len() > 0,
            body == (if s@[0] == 45 || s@[0] == 43 { s@.skip(1) } else { s@ }),
        decreases s@.len() - i,
    {
        let c = s[i];
        if c < 48 || c > 57 {
            assert(body[i - start] == c);
            return None;
        }
        let v = acc * 10 + (c - 48) as u128;
        acc = if v > 0x1_0000_0000_0000_0000 { 0x1_0000_0000_0000_0000 } else { v };
        assert(body.take(i - start + 1).drop_last() =~= body.take(i - start));
        i += 1;
    }
    assert(body.take(i - start) =~= body);
    if neg {
        if acc > 0x8000_0000_0000_0000 {
            None
        } else if acc == 0x8000_0000_0000_0000 {
            Some(i64::MIN)
        } else {
            Some(-(acc as i64))
        }
    } else if acc > 0x7fff_ffff_ffff_ffff {
        None
    } else {
        Some(acc as i64)
    }
}

} // verus!
