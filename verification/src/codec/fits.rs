use vstd::prelude::*;
use crate::bytes::{as_signed32, be16, be32, be64, first_tag, find_tag, u64_be, has_tag, tag_at, to_i32, u16_be, u32_be};
use crate::error::{eof, failure, invalid_data, outcome, unexpected_eof, unsupported, Failure, Result, RmpegError};
use crate::bytes::{append_bytes, as_signed16, lemma_first_tag_found, to_i16};
use crate::codec::raster::{concat_rows, lemma_row_end};
use crate::text::{float_text, is_float_text, parse_i64, parse_i64_token, span_is, trim_bounds, trimmed, utf8_from, is_utf8};
use crate::error::with_signed;

verus! {

/// What the header cards read so far say; the real-valued ones are kept as text.
pub struct FitsCards {
    pub bitpix: Option<int>,
    pub naxis: Option<int>,
    pub width: Option<int>,
    pub height: Option<int>,
    pub bscale: Option<Seq<u8>>,
    pub bzero: Option<Seq<u8>>,
    pub blank: Option<int>,
    pub datamin: Option<Seq<u8>>,
    pub datamax: Option<Seq<u8>>,
    pub data_offset: Option<int>,
}

/// The header cards read so far.
pub struct FitsScan {
    pub bitpix: Option<i32>,
    pub naxis: Option<i64>,
    pub width: Option<usize>,
    pub height: Option<usize>,
    pub bscale: Option<Vec<u8>>,
    pub bzero: Option<Vec<u8>>,
    pub blank: Option<i64>,
    pub datamin: Option<Vec<u8>>,
    pub datamax: Option<Vec<u8>>,
    pub data_offset: Option<usize>,
}

/// The header of a FITS image: a two-dimensional image of 16- or 32-bit integers or of
/// 32- or 64-bit reals, with its scaling cards (the real-valued ones as their text, with
/// Fortran `D` exponents written `E`).
pub struct FitsHeader {
    pub width: usize,
    pub height: usize,
    pub bitpix: i32,
    pub data_offset: usize,
    pub bscale: Option<Vec<u8>>,
    pub bzero: Option<Vec<u8>>,
    pub blank: Option<i64>,
    pub datamin: Option<Vec<u8>>,
    pub datamax: Option<Vec<u8>>,
}

/// An integer option as a mathematical one.
pub open spec fn opt_i32(o: Option<i32>) -> Option<int> {
    match o { Some(v) => Some(v as int), None => None }
}

/// An integer option as a mathematical one.
pub open spec fn opt_i64(o: Option<i64>) -> Option<int> {
    match o { Some(v) => Some(v as int), None => None }
}

/// An integer option as a mathematical one.
pub open spec fn opt_usize(o: Option<usize>) -> Option<int> {
    match o { Some(v) => Some(v as int), None => None }
}

/// A byte-vector option as a sequence option.
pub open spec fn opt_bytes(o: Option<Vec<u8>>) -> Option<Seq<u8>> {
    match o { Some(v) => Some(v@), None => None }
}

impl View for FitsScan {
    type V = FitsCards;

    open spec fn view(&self) -> FitsCards {
        FitsCards {
            bitpix: opt_i32(self.bitpix),
            naxis: opt_i64(self.naxis),
            width: opt_usize(self.width),
            height: opt_usize(self.height),
            bscale: opt_bytes(self.bscale),
            bzero: opt_bytes(self.bzero),
            blank: opt_i64(self.blank),
            datamin: opt_bytes(self.datamin),
            datamax: opt_bytes(self.datamax),
            data_offset: opt_usize(self.data_offset),
        }
    }
}

impl View for FitsHeader {
    type V = FitsCards;

    open spec fn view(&self) -> FitsCards {
        FitsCards {
            bitpix: Some(self.bitpix as int),
            naxis: Some(2),
            width: Some(self.width as int),
            height: Some(self.height as int),
            bscale: opt_bytes(self.bscale),
            bzero: opt_bytes(self.bzero),
            blank: opt_i64(self.blank),
            datamin: opt_bytes(self.datamin),
            datamax: opt_bytes(self.datamax),
            data_offset: Some(self.data_offset as int),
        }
    }
}

/// Nothing read yet.
pub open spec fn no_cards() -> FitsCards {
    FitsCards {
        bitpix: None,
        naxis: None,
        width: None,
        height: None,
        bscale: None,
        bzero: None,
        blank: None,
        datamin: None,
        datamax: None,
        data_offset: None,
    }
}

/// `v` up to its first `/`, which starts a comment.
pub open spec fn slash_cut(v: Seq<u8>) -> Seq<u8> {
    match first_tag(v, seq![47u8]) {
        Some(k) => v.subrange(0, k),
        None => v,
    }
}

/// `v` with each `D` or `d` written `E`.
pub open spec fn exponent_normalized(v: Seq<u8>) -> Seq<u8> {
    Seq::new(v.len(), |i: int| if v[i] == 68 || v[i] == 100 { 69u8 } else { v[i] })
}

/// The keyword of the card at `start`, trimmed.
pub open spec fn fits_key(b: Seq<u8>, start: int) -> Seq<u8> {
    trimmed(b.subrange(start, start + 8))
}

/// The value of the card at `start`: after `= `, up to a comment, trimmed.
pub open spec fn fits_value(b: Seq<u8>, start: int) -> Seq<u8> {
    trimmed(slash_cut(b.subrange(start + 10, start + 80)))
}

/// What the card at `start` changes, and whether it is the `END` card.
pub open spec fn fits_card_spec(b: Seq<u8>, start: int, st: FitsCards) -> core::result::Result<(FitsCards, bool), Failure> {
    let key = fits_key(b, start);
    let v = fits_value(b, start);
    let text_value = exponent_normalized(v);
    if !utf8_from(b.subrange(start, start + 8), 0) {
        Err(Failure::InvalidData)
    } else if key == seq![0x45u8, 0x4e, 0x44] {
        if start + 80 + 2879 > usize::MAX {
            Err(Failure::InvalidData)
        } else {
            Ok((FitsCards { data_offset: Some((start + 80 + 2879) / 2880 * 2880), ..st }, true))
        }
    } else if b[start + 8] != 61 {
        Ok((st, false))
    } else if !utf8_from(b.subrange(start + 10, start + 80), 0) {
        Err(Failure::InvalidData)
    } else if key == seq![0x42u8, 0x49, 0x54, 0x50, 0x49, 0x58] {
        match parse_i64(v) {
            None => Err(Failure::InvalidData),
            Some(n) => if n < i32::MIN || n > i32::MAX { Err(Failure::Unsupported) } else { Ok((FitsCards { bitpix: Some(n), ..st }, false)) },
        }
    } else if key == seq![0x4eu8, 0x41, 0x58, 0x49, 0x53] {
        match parse_i64(v) {
            None => Err(Failure::InvalidData),
            Some(n) => Ok((FitsCards { naxis: Some(n), ..st }, false)),
        }
    } else if key == seq![0x4eu8, 0x41, 0x58, 0x49, 0x53, 0x31] || key == seq![0x4eu8, 0x41, 0x58, 0x49, 0x53, 0x32] {
        match parse_i64(v) {
            None => Err(Failure::InvalidData),
            Some(n) => if n <= 0 {
                Err(Failure::InvalidData)
            } else if n > usize::MAX {
                Err(Failure::Unsupported)
            } else if key == seq![0x4eu8, 0x41, 0x58, 0x49, 0x53, 0x31] {
                Ok((FitsCards { width: Some(n), ..st }, false))
            } else {
                Ok((FitsCards { height: Some(n), ..st }, false))
            },
        }
    } else if key == seq![0x42u8, 0x53, 0x43, 0x41, 0x4c, 0x45] || key == seq![0x42u8, 0x5a, 0x45, 0x52, 0x4f] || key == seq![0x44u8, 0x41, 0x54, 0x41, 0x4d, 0x49, 0x4e] || key == seq![0x44u8, 0x41, 0x54, 0x41, 0x4d, 0x41, 0x58] {
        if !float_text(text_value) {
            Err(Failure::InvalidData)
        } else if key == seq![0x42u8, 0x53, 0x43, 0x41, 0x4c, 0x45] {
            Ok((FitsCards { bscale: Some(text_value), ..st }, false))
        } else if key == seq![0x42u8, 0x5a, 0x45, 0x52, 0x4f] {
            Ok((FitsCards { bzero: Some(text_value), ..st }, false))
        } else if key == seq![0x44u8, 0x41, 0x54, 0x41, 0x4d, 0x49, 0x4e] {
            Ok((FitsCards { datamin: Some(text_value), ..st }, false))
        } else {
            Ok((FitsCards { datamax: Some(text_value), ..st }, false))
        }
    } else if key == seq![0x42u8, 0x4c, 0x41, 0x4e, 0x4b] {
        match parse_i64(v) {
            None => Err(Failure::InvalidData),
            Some(n) => Ok((FitsCards { blank: Some(n), ..st }, false)),
        }
    } else {
        Ok((st, false))
    }
}

/// The cards from `start` on, 80 bytes each, up to `END` or the last whole card.
pub open spec fn fits_scan(b: Seq<u8>, start: int, st: FitsCards) -> core::result::Result<FitsCards, Failure>
    decreases (if start < b.len() { b.len() - start } else { 0 }),
{
    if start < 0 || start + 80 > b.len() {
        Ok(st)
    } else {
        match fits_card_spec(b, start, st) {
            Err(e) => Err(e),
            Ok(next) => if next.1 { Ok(next.0) } else { fits_scan(b, start + 80, next.0) },
        }
    }
}

/// The header of a FITS file: `SIMPLE`, then cards giving two axes, a supported
/// `BITPIX`, both sizes, and an `END` whose block-aligned end lies within the input.
pub open spec fn spec_fits_header(b: Seq<u8>) -> core::result::Result<FitsCards, Failure> {
    if !has_tag(b, 0, seq![0x53u8, 0x49, 0x4d, 0x50, 0x4c, 0x45, 0x20, 0x20]) {
        Err(Failure::InvalidData)
    } else {
        match fits_scan(b, 0, no_cards()) {
            Err(e) => Err(e),
            Ok(st) => if st.naxis != Some(2int) {
                Err(Failure::Unsupported)
            } else if st.bitpix is None {
                Err(Failure::InvalidData)
            } else if st.bitpix != Some(16int) && st.bitpix != Some(32int) && st.bitpix != Some(-32int) && st.bitpix != Some(-64int) {
                Err(Failure::Unsupported)
            } else if st.width is None || st.height is None || st.data_offset is None {
                Err(Failure::InvalidData)
            } else if st.data_offset->0 > b.len() {
                Err(eof(st.data_offset->0, b.len() as int))
            } else {
                Ok(st)
            },
        }
    }
}

/// Reads the card at `start` into `scan`; says whether it was the `END` card.
fn fits_card(bytes: &[u8], start: usize, scan: &mut FitsScan) -> (r: Result<bool>)
    requires
        start + 80 <= bytes@.len(),
    ensures
        match fits_card_spec(bytes@, start as int, old(scan)@) {
            Ok(next) => r is Ok && r->Ok_0 == next.1 && final(scan)@ == next.0,
            Err(e) => outcome(r) == Err::<bool, Failure>(e),
        },
{
    let key_bytes = &bytes[start..start + 8];
    if !is_utf8(key_bytes) {
        return Err(invalid_data("FITS card key is not ASCII"));
    }
    let (ka, kb) = trim_bounds(key_bytes);
    if span_is(key_bytes, ka, kb, &[0x45u8, 0x4e, 0x44]) {
        if start > usize::MAX - 2959 {
            return Err(invalid_data("FITS header offset overflow"));
        }
        scan.data_offset = Some((start + 80 + 2879) / 2880 * 2880);
        return Ok(true);
    }
    if bytes[start + 8] != 61 {
        return Ok(false);
    }
    let value_bytes = &bytes[start + 10..start + 80];
    if !is_utf8(value_bytes) {
        return Err(invalid_data("FITS card value is not ASCII"));
    }
    let slash: [u8; 1] = [47];
    assert(slash@ =~= seq![47u8]);
    let cut = match find_tag(value_bytes, &slash) {
        Some(k) => {
            proof {
                lemma_first_tag_found(value_bytes@, seq![47u8], k as int);
            }
            k
        },
        None => 70,
    };
    let v = &value_bytes[0..cut];
    assert(v@ =~= slash_cut(value_bytes@));
    let (va, vb) = trim_bounds(v);
    let ghost value = v@.subrange(va as int, vb as int);
    if span_is(key_bytes, ka, kb, &[0x42u8, 0x49, 0x54, 0x50, 0x49, 0x58]) {
        match parse_i64_token(v, va, vb) {
            None => return Err(invalid_data("FITS BITPIX value is invalid")),
            Some(n) => {
                if n < -2147483648 || n > 2147483647 {
                    return Err(unsupported("FITS BITPIX is too large"));
                }
                scan.bitpix = Some(n as i32);
            },
        }
    } else if span_is(key_bytes, ka, kb, &[0x4eu8, 0x41, 0x58, 0x49, 0x53]) {
        match parse_i64_token(v, va, vb) {
            None => return Err(invalid_data("FITS NAXIS value is invalid")),
            Some(n) => scan.naxis = Some(n),
        }
    } else if span_is(key_bytes, ka, kb, &[0x4eu8, 0x41, 0x58, 0x49, 0x53, 0x31]) || span_is(key_bytes, ka, kb, &[0x4eu8, 0x41, 0x58, 0x49, 0x53, 0x32]) {
        let first = span_is(key_bytes, ka, kb, &[0x4eu8, 0x41, 0x58, 0x49, 0x53, 0x31]);
        match parse_i64_token(v, va, vb) {
            None => return Err(invalid_data("FITS NAXIS value is invalid")),
            Some(n) => {
                if n <= 0 {
                    return Err(invalid_data("FITS NAXIS must be positive"));
                }
                if n as u64 > usize::MAX as u64 {
                    return Err(unsupported("FITS NAXIS is too large"));
                }
                if first {
                    scan.width = Some(n as usize);
                } else {
                    scan.height = Some(n as usize);
                }
            },
        }
    } else if span_is(key_bytes, ka, kb, &[0x42u8, 0x53, 0x43, 0x41, 0x4c, 0x45]) || span_is(key_bytes, ka, kb, &[0x42u8, 0x5a, 0x45, 0x52, 0x4f])
        || span_is(key_bytes, ka, kb, &[0x44u8, 0x41, 0x54, 0x41, 0x4d, 0x49, 0x4e]) || span_is(key_bytes, ka, kb, &[0x44u8, 0x41, 0x54, 0x41, 0x4d, 0x41, 0x58]) {
        let text_value = exponent_normalize(v, va, vb);
        if !is_float_text(text_value.as_slice()) {
            return Err(invalid_data("FITS text_value value is invalid"));
        }
        if span_is(key_bytes, ka, kb, &[0x42u8, 0x53, 0x43, 0x41, 0x4c, 0x45]) {
            scan.bscale = Some(text_value);
        } else if span_is(key_bytes, ka, kb, &[0x42u8, 0x5a, 0x45, 0x52, 0x4f]) {
            scan.bzero = Some(text_value);
        } else if span_is(key_bytes, ka, kb, &[0x44u8, 0x41, 0x54, 0x41, 0x4d, 0x49, 0x4e]) {
            scan.datamin = Some(text_value);
        } else {
            scan.datamax = Some(text_value);
        }
    } else if span_is(key_bytes, ka, kb, &[0x42u8, 0x4c, 0x41, 0x4e, 0x4b]) {
        match parse_i64_token(v, va, vb) {
            None => return Err(invalid_data("FITS BLANK value is invalid")),
            Some(n) => scan.blank = Some(n),
        }
    }
    Ok(false)
}

/// `t[a..b]` with each `D` or `d` written `E`.
fn exponent_normalize(t: &[u8], a: usize, b: usize) -> (r: Vec<u8>)
    requires
        a <= b <= t@.len(),
    ensures
        r@ == exponent_normalized(t@.subrange(a as int, b as int)),
{
    let mut r: Vec<u8> = Vec::new();
    let mut i = a;
    while i < b
        invariant
            a <= i <= b <= t@.len(),
            r@ == exponent_normalized(t@.subrange(a as int, i as int)),
        decreases b - i,
    {
        let c = t[i];
        r.push(if c == 68 || c == 100 { 69 } else { c });
        assert(r@ =~= exponent_normalized(t@.subrange(a as int, i + 1)));
        i = i + 1;
    }
    r
}

/// Reads the header of a FITS image.
pub fn fits_header(bytes: &[u8]) -> (r: Result<FitsHeader>)
    ensures
        match spec_fits_header(bytes@) {
            Ok(c) => r is Ok && r->Ok_0@ == c,
            Err(e) => outcome(r) == Err::<FitsHeader, Failure>(e),
        },
{
    if !tag_at(bytes, 0, &[0x53u8, 0x49, 0x4d, 0x50, 0x4c, 0x45, 0x20, 0x20]) {
        return Err(invalid_data("missing FITS header"));
    }
    let n = bytes.len();
    let mut scan = FitsScan {
        bitpix: None,
        naxis: None,
        width: None,
        height: None,
        bscale: None,
        bzero: None,
        blank: None,
        datamin: None,
        datamax: None,
        data_offset: None,
    };
    let mut start: usize = 0;
    loop
        invariant_except_break
            n == bytes@.len(),
            start <= n,
            fits_scan(bytes@, 0, no_cards()) == fits_scan(bytes@, start as int, scan@),
            has_tag(bytes@, 0, seq![0x53u8, 0x49, 0x4d, 0x50, 0x4c, 0x45, 0x20, 0x20]),
        ensures
            fits_scan(bytes@, 0, no_cards()) == Ok::<FitsCards, Failure>(scan@),
        decreases n - start,
    {
        if n - start < 80 {
            break;
        }
        let ghost before = scan@;
        let res = fits_card(bytes, start, &mut scan);
        let end = match res {
            Ok(e) => e,
            Err(e) => {
                proof {
                    assert(fits_card_spec(bytes@, start as int, before) is Err);
                    assert(fits_scan(bytes@, start as int, before) == Err::<FitsCards, Failure>(failure(e)));
                }
                return Err(e);
            },
        };
        if end {
            break;
        }
        start = start + 80;
    }
    let naxis_ok = match scan.naxis { Some(v) => v == 2, None => false };
    if !naxis_ok {
        return Err(unsupported("only two-dimensional FITS images are supported"));
    }
    let bitpix = match scan.bitpix { Some(v) => v, None => return Err(invalid_data("FITS BITPIX was not found")) };
    if bitpix != 16 && bitpix != 32 && bitpix != -32 && bitpix != -64 {
        return Err(RmpegError::Unsupported(with_signed("unsupported FITS BITPIX ", bitpix as i64)));
    }
    let width = match scan.width { Some(v) => v, None => return Err(invalid_data("FITS NAXIS1 was not found")) };
    let height = match scan.height { Some(v) => v, None => return Err(invalid_data("FITS NAXIS2 was not found")) };
    let data_offset = match scan.data_offset { Some(v) => v, None => return Err(invalid_data("FITS END card was not found")) };
    if data_offset > n {
        return Err(unexpected_eof(data_offset, n));
    }
    Ok(FitsHeader {
        width,
        height,
        bitpix,
        data_offset,
        bscale: scan.bscale,
        bzero: scan.bzero,
        blank: scan.blank,
        datamin: scan.datamin,
        datamax: scan.datamax,
    })
}

/// One stored sample: an integer equal to `BLANK`, another integer, or the bits of a
/// 32- or 64-bit real.
#[derive(Debug, Clone, Copy, PartialEq, Eq)]
pub enum FitsSample {
    Blank,
    Integer(i64),
    Real32(u32),
    Real64(u64),
}

/// The bytes of one sample of `BITPIX` `bitpix`.
pub open spec fn fits_sample_bytes(bitpix: Option<int>) -> int {
    if bitpix == Some(16int) { 2 } else if bitpix == Some(32int) || bitpix == Some(-32int) { 4 } else { 8 }
}

/// Sample `i` of the big-endian data.
pub open spec fn fits_sample(b: Seq<u8>, h: FitsCards, i: int) -> FitsSample {
    let pos = h.data_offset->0 + i * fits_sample_bytes(h.bitpix);
    let raw16 = as_signed16(u16_be(b, pos));
    let raw32 = as_signed32(u32_be(b, pos));
    if h.bitpix == Some(16int) {
        if h.blank == Some(raw16) { FitsSample::Blank } else { FitsSample::Integer(raw16 as i64) }
    } else if h.bitpix == Some(32int) {
        if h.blank == Some(raw32) { FitsSample::Blank } else { FitsSample::Integer(raw32 as i64) }
    } else if h.bitpix == Some(-32int) {
        FitsSample::Real32(u32_be(b, pos) as u32)
    } else {
        FitsSample::Real64(u64_be(b, pos) as u64)
    }
}

/// The samples of the image: `width * height` of them, all within the input.
pub open spec fn spec_fits_samples(b: Seq<u8>, h: FitsCards) -> core::result::Result<Seq<FitsSample>, Failure> {
    let pixels = h.width->0 * h.height->0;
    let size = pixels * fits_sample_bytes(h.bitpix);
    let end = h.data_offset->0 + size;
    if pixels > usize::MAX || size > usize::MAX || end > usize::MAX {
        Err(Failure::InvalidData)
    } else if end > b.len() {
        Err(eof(end, b.len() as int))
    } else {
        Ok(Seq::new(pixels as nat, |i: int| fits_sample(b, h, i)))
    }
}

/// Reads the samples of the image.
pub fn fits_samples(bytes: &[u8], header: &FitsHeader) -> (r: Result<Vec<FitsSample>>)
    requires
        header.bitpix == 16 || header.bitpix == 32 || header.bitpix == -32 || header.bitpix == -64,
    ensures
        match spec_fits_samples(bytes@, header@) {
            Ok(s) => r is Ok && r->Ok_0@ == s,
            Err(e) => outcome(r) == Err::<Vec<FitsSample>, Failure>(e),
        },
{
    let len = bytes.len();
    let pixels = match header.width.checked_mul(header.height) {
        Some(v) => v,
        None => return Err(invalid_data("FITS pixel count overflow")),
    };
    let bps: usize = if header.bitpix == 16 { 2 } else if header.bitpix == 32 || header.bitpix == -32 { 4 } else { 8 };
    let size = match pixels.checked_mul(bps) {
        Some(v) => v,
        None => return Err(invalid_data("FITS data size overflow")),
    };
    let end = match header.data_offset.checked_add(size) {
        Some(v) => v,
        None => return Err(invalid_data("FITS data range overflow")),
    };
    if end > len {
        return Err(unexpected_eof(end, len));
    }
    let ghost h = header@;
    let mut samples: Vec<FitsSample> = Vec::new();
    let mut i: usize = 0;
    while i < pixels
        invariant
            len == bytes@.len(),
            h == header@,
            header.bitpix == 16 || header.bitpix == 32 || header.bitpix == -32 || header.bitpix == -64,
            bps == fits_sample_bytes(h.bitpix),
            size == pixels * bps,
            header.data_offset + size <= len,
            i <= pixels,
            samples@ == Seq::new(i as nat, |k: int| fits_sample(bytes@, h, k)),
        decreases pixels - i,
    {
        proof {
            lemma_row_end(i as int, bps as int, pixels as int);
        }
        let pos = header.data_offset + i * bps;
        let sample = if header.bitpix == 16 {
            let raw = to_i16(be16(bytes, pos)) as i64;
            let blank = match header.blank { Some(v) => v == raw, None => false };
            if blank { FitsSample::Blank } else { FitsSample::Integer(raw) }
        } else if header.bitpix == 32 {
            let raw = to_i32(be32(bytes, pos)) as i64;
            let blank = match header.blank { Some(v) => v == raw, None => false };
            if blank { FitsSample::Blank } else { FitsSample::Integer(raw) }
        } else if header.bitpix == -32 {
            FitsSample::Real32(be32(bytes, pos))
        } else {
            FitsSample::Real64(be64(bytes, pos))
        };
        samples.push(sample);
        assert(samples@ =~= Seq::new((i + 1) as nat, |k: int| fits_sample(bytes@, h, k)));
        i = i + 1;
    }
    Ok(samples)
}

/// Output row `y` of a `w` by `h` image of 16-bit gray values stored bottom row first:
/// stored row `h - 1 - y`, each value little-endian.
pub open spec fn fits_frame_row(gray: Seq<u16>, w: int, h: int, y: int) -> Seq<u8> {
    Seq::new((2 * w) as nat, |k: int| {
        let g = gray[(h - 1 - y) * w + k / 2];
        if k % 2 == 0 { (g % 256) as u8 } else { (g / 256) as u8 }
    })
}

/// Lays out the gray values of the image top row first, as little-endian 16-bit samples.
pub fn fits_frame(header: &FitsHeader, gray: &[u16]) -> (r: Result<Vec<u8>>)
    requires
        gray@.len() == header.width * header.height,
    ensures
        header.width * header.height * 2 > usize::MAX ==> outcome(r) == Err::<Vec<u8>, Failure>(Failure::InvalidData),
        header.width * header.height * 2 <= usize::MAX ==> r is Ok
            && r->Ok_0@ == concat_rows(header.height as int, |y: int| fits_frame_row(gray@, header.width as int, header.height as int, y)),
{
    let w = header.width;
    let h = header.height;
    let pixels = match w.checked_mul(h) { Some(v) => v, None => return Err(invalid_data("FITS frame size overflow")) };
    if pixels.checked_mul(2).is_none() {
        return Err(invalid_data("FITS frame size overflow"));
    }
    let ghost g = gray@;
    let mut frame: Vec<u8> = Vec::new();
    let mut y: usize = 0;
    while y < h
        invariant
            g == gray@,
            w == header.width,
            h == header.height,
            pixels == w * h,
            gray@.len() == pixels,
            y <= h,
            frame@ == concat_rows(y as int, |r: int| fits_frame_row(g, w as int, h as int, r)),
        decreases h - y,
    {
        let src = h - 1 - y;
        proof {
            lemma_row_end(src as int, w as int, h as int);
        }
        let mut row: Vec<u8> = Vec::new();
        let mut x: usize = 0;
        while x < w
            invariant
                g == gray@,
                w == header.width,
                h == header.height,
                gray@.len() == pixels,
                pixels == w * h,
                src == h - 1 - y,
                src * w + w <= pixels,
                x <= w,
                row@ == Seq::new((2 * x) as nat, |k: int| {
                    let v = g[(h - 1 - y) * w + k / 2];
                    if k % 2 == 0 { (v % 256) as u8 } else { (v / 256) as u8 }
                }),
            decreases w - x,
        {
            let v = gray[src * w + x];
            row.push((v % 256) as u8);
            row.push((v / 256) as u8);
            assert(row@ =~= Seq::new((2 * (x + 1)) as nat, |k: int| {
                let v = g[(h - 1 - y) * w + k / 2];
                if k % 2 == 0 { (v % 256) as u8 } else { (v / 256) as u8 }
            }));
            x = x + 1;
        }
        assert(row@ =~= fits_frame_row(g, w as int, h as int, y as int));
        append_bytes(&mut frame, row.as_slice());
        y = y + 1;
    }
    Ok(frame)
}

} // verus!
