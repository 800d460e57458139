use vstd::prelude::*;
use crate::bytes::{first_tag, find_tag};
use crate::error::{eof, failure, invalid_data, outcome, unexpected_eof, Failure, Result, RmpegError};
use crate::text::{parse_u32, parse_u32_token, digit_run_end, digits_capped, digits_value, ends_with, find_token_end, is_dec, is_dec_digit, lemma_digit_run_end, run_end, skip_whitespace, skip_ws, span_ends_with, span_is, token_end, utf8_from, is_utf8};
use crate::bits::{lemma_two_pow_mono, two_pow};
use crate::bytes::{append_bytes, lemma_first_tag_found};
use crate::codec::digest::{listing_outcome, single_frame_listing, single_listing};
use crate::codec::raster::{concat_rows, lemma_row_end};
use crate::metadata::AudioFrameHash;
use crate::error::join3;

verus! {

/// The end of the line at `p`: the next newline, or the end of the text.
pub open spec fn line_end(t: Seq<u8>, p: int) -> int
    decreases (if p < t.len() { t.len() - p } else { 0 }),
{
    if p < 0 || p >= t.len() || t[p] == 10 { p } else { line_end(t, p + 1) }
}

/// A line ends at or after its start, and within the text.
pub proof fn lemma_line_end(t: Seq<u8>, p: int)
    ensures
        p <= line_end(t, p),
        p <= t.len() ==> line_end(t, p) <= t.len(),
    decreases (if p < t.len() { t.len() - p } else { 0 }),
{
    if 0 <= p < t.len() && t[p] != 10 {
        lemma_line_end(t, p + 1);
    }
}

/// What the line `ls..le` says of the `#define` whose name ends with `suffix`: nothing
/// unless its first three tokens are `#define`, such a name and a value; else the
/// nonzero 32-bit value or the failure to read one.
pub open spec fn xbm_define_in_line(t: Seq<u8>, ls: int, le: int, suffix: Seq<u8>) -> Option<core::result::Result<int, Failure>> {
    let a0 = skip_ws(t, ls, le);
    let a1 = token_end(t, a0, le);
    let b0 = skip_ws(t, a1, le);
    let b1 = token_end(t, b0, le);
    let c0 = skip_ws(t, b1, le);
    let c1 = token_end(t, c0, le);
    if a0 >= le || t.subrange(a0, a1) != seq![0x23u8, 0x64, 0x65, 0x66, 0x69, 0x6e, 0x65] || b0 >= le || c0 >= le {
        None
    } else if !ends_with(t.subrange(b0, b1), suffix) {
        None
    } else {
        match parse_u32(t.subrange(c0, c1)) {
            None => Some(Err(Failure::InvalidData)),
            Some(v) => if v == 0 { Some(Err(Failure::InvalidData)) } else { Some(Ok(v)) },
        }
    }
}

/// The value of the first `#define` whose name ends with `suffix`, from line `p` on.
pub open spec fn xbm_define_from(t: Seq<u8>, p: int, suffix: Seq<u8>) -> core::result::Result<int, Failure>
    decreases (if p < t.len() { t.len() - p } else { 0 }),
{
    if p < 0 || p >= t.len() {
        Err(Failure::InvalidData)
    } else {
        let e = line_end(t, p);
        match xbm_define_in_line(t, p, e, suffix) {
            Some(r) => r,
            None => {
                proof {
                    lemma_line_end(t, p);
                }
                xbm_define_from(t, e + 1, suffix)
            },
        }
    }
}

/// The text between the braces that follow the first `_bits`.
pub open spec fn xbm_data(t: Seq<u8>) -> core::result::Result<Seq<u8>, Failure> {
    match first_tag(t, seq![0x5fu8, 0x62, 0x69, 0x74, 0x73]) {
        None => Err(Failure::InvalidData),
        Some(bits) => match first_tag(t.subrange(bits, t.len() as int), seq![0x7bu8]) {
            None => Err(Failure::InvalidData),
            Some(o) => {
                let open = bits + o + 1;
                match first_tag(t.subrange(open, t.len() as int), seq![0x7du8]) {
                    None => Err(Failure::InvalidData),
                    Some(c) => Ok(t.subrange(open, open + c)),
                }
            },
        },
    }
}

/// Whether the bitmap is declared with 16-bit words: `short` before the first `_bits`.
pub open spec fn xbm_short(t: Seq<u8>) -> bool {
    match first_tag(t, seq![0x5fu8, 0x62, 0x69, 0x74, 0x73]) {
        None => false,
        Some(bits) => first_tag(t.subrange(0, bits), seq![0x73u8, 0x68, 0x6f, 0x72, 0x74]) is Some,
    }
}

/// The integers of a C initializer from `pos` on, after `acc`: decimal numbers and
/// `0x` hexadecimal numbers, each at most `u32::MAX`; everything else separates them.
pub open spec fn c_integers(d: Seq<u8>, pos: int, acc: Seq<u32>) -> core::result::Result<Seq<u32>, Failure>
    decreases (if pos < d.len() { d.len() - pos } else { 0 }),
{
    if pos < 0 || pos >= d.len() {
        if acc.len() == 0 { Err(Failure::InvalidData) } else { Ok(acc) }
    } else if !is_dec(d[pos]) {
        c_integers(d, pos + 1, acc)
    } else if d[pos] == 48 && pos + 1 < d.len() && (d[pos + 1] == 120 || d[pos + 1] == 88) {
        let e = digit_run_end(d, pos + 2, true);
        let v = digits_value(d.subrange(pos + 2, e), 16);
        if e == pos + 2 || v > u32::MAX {
            Err(Failure::InvalidData)
        } else {
            proof {
                lemma_digit_run_end(d, pos + 2, true);
            }
            c_integers(d, e, acc.push(v as u32))
        }
    } else {
        let e = digit_run_end(d, pos, false);
        let v = digits_value(d.subrange(pos, e), 10);
        if v > u32::MAX {
            Err(Failure::InvalidData)
        } else {
            proof {
                lemma_digit_run_end(d, pos, false);
            }
            c_integers(d, e, acc.push(v as u32))
        }
    }
}

/// The low `n` bits of `v` in reverse order below the bits of `acc`: each step moves the
/// lowest remaining bit of `v` in under those already moved.
pub open spec fn reversed_bits(v: int, n: nat, acc: int) -> int
    decreases n,
{
    if n == 0 { acc } else { reversed_bits(v / 2, (n - 1) as nat, acc * 2 + v % 2) }
}

/// The frame of a bitmap stored as bytes: the first `ceil(width / 8) * height` values,
/// each byte's bits reversed.
pub open spec fn xbm_byte_frame_spec(w: int, h: int, vals: Seq<u32>) -> core::result::Result<Seq<u8>, Failure> {
    let size = (w + 7) / 8 * h;
    if size > usize::MAX {
        Err(Failure::InvalidData)
    } else if vals.len() < size {
        Err(eof(size, vals.len() as int))
    } else {
        Ok(Seq::new(size as nat, |i: int| reversed_bits(vals[i] as int % 256, 8, 0) as u8))
    }
}

/// Byte `k` of row `y` of a bitmap stored as 16-bit words, `wpr` words a row: the
/// little-endian bytes of each word with its bits reversed.
pub open spec fn xbm_short_byte(vals: Seq<u32>, wpr: int, y: int, k: int) -> u8 {
    let r = reversed_bits(vals[y * wpr + k / 2] as int % 65536, 16, 0);
    if k % 2 == 0 { (r % 256) as u8 } else { (r / 256) as u8 }
}

/// The frame of a bitmap stored as 16-bit words: `ceil(width / 16)` words a row, of which
/// the first `ceil(width / 8)` bytes are kept.
pub open spec fn xbm_short_frame_spec(w: int, h: int, vals: Seq<u32>) -> core::result::Result<Seq<u8>, Failure> {
    let row = (w + 7) / 8;
    let wpr = (w + 15) / 16;
    if wpr * h > usize::MAX {
        Err(Failure::InvalidData)
    } else if vals.len() < wpr * h {
        Err(eof(wpr * h, vals.len() as int))
    } else if row * h > usize::MAX {
        Err(Failure::InvalidData)
    } else {
        Ok(concat_rows(h, |y: int| Seq::new(row as nat, |k: int| xbm_short_byte(vals, wpr, y, k))))
    }
}

/// The decoded frame of an XBM image: UTF-8 text with `_width` and `_height` defines and
/// a `_bits` array, of bytes or (declared `short`) of 16-bit words.
pub open spec fn spec_xbm_image(t: Seq<u8>) -> core::result::Result<Seq<u8>, Failure> {
    if !utf8_from(t, 0) {
        Err(Failure::InvalidData)
    } else {
        match xbm_define_from(t, 0, seq![0x5fu8, 0x77, 0x69, 0x64, 0x74, 0x68]) {
            Err(e) => Err(e),
            Ok(w) => match xbm_define_from(t, 0, seq![0x5fu8, 0x68, 0x65, 0x69, 0x67, 0x68, 0x74]) {
                Err(e) => Err(e),
                Ok(h) => match xbm_data(t) {
                    Err(e) => Err(e),
                    Ok(d) => match c_integers(d, 0, Seq::empty()) {
                        Err(e) => Err(e),
                        Ok(vals) => if xbm_short(t) { xbm_short_frame_spec(w, h, vals) } else { xbm_byte_frame_spec(w, h, vals) },
                    },
                },
            },
        }
    }
}

/// The end of the line at `p`.
fn find_line_end(t: &[u8], p: usize) -> (r: usize)
    requires
        p <= t@.len(),
    ensures
        r == line_end(t@, p as int),
        p <= r <= t@.len(),
{
    let n = t.len();
    let mut q = p;
    while q < n && t[q] != 10
        invariant
            n == t@.len(),
            p <= q <= n,
            line_end(t@, p as int) == line_end(t@, q as int),
        decreases n - q,
    {
        q = q + 1;
    }
    q
}

/// The value of the first `#define` whose name ends with `suffix` (`label` in messages).
fn xbm_define(t: &[u8], suffix: &[u8], label: &str) -> (r: Result<u32>)
    ensures
        match xbm_define_from(t@, 0, suffix@) {
            Ok(v) => r is Ok && r->Ok_0 == v,
            Err(e) => outcome(r) == Err::<u32, Failure>(e),
        },
{
    let n = t.len();
    let mut p: usize = 0;
    while p < n
        invariant
            n == t@.len(),
            p <= n,
            xbm_define_from(t@, 0, suffix@) == xbm_define_from(t@, p as int, suffix@),
        decreases n - p,
    {
        let e = find_line_end(t, p);
        let a0 = skip_whitespace(t, p, e);
        let a1 = find_token_end(t, a0, e);
        let b0 = skip_whitespace(t, a1, e);
        let b1 = find_token_end(t, b0, e);
        let c0 = skip_whitespace(t, b1, e);
        let c1 = find_token_end(t, c0, e);
        if a0 < e && span_is(t, a0, a1, &[0x23u8, 0x64, 0x65, 0x66, 0x69, 0x6e, 0x65]) && b0 < e && c0 < e && span_ends_with(t, b0, b1, suffix) {
            return match parse_u32_token(t, c0, c1) {
                None => Err(RmpegError::InvalidData(join3("XBM ", label, " is invalid"))),
                Some(v) => if v == 0 {
                    Err(RmpegError::InvalidData(join3("XBM ", label, " must be nonzero")))
                } else {
                    Ok(v)
                },
            };
        }
        if e >= n {
            assert(xbm_define_from(t@, e + 1, suffix@) == Err::<int, Failure>(Failure::InvalidData));
            return Err(RmpegError::InvalidData(join3("XBM ", label, " was not found")));
        }
        p = e + 1;
    }
    Err(RmpegError::InvalidData(join3("XBM ", label, " was not found")))
}

/// Where the bitmap array's text starts and ends: between the braces after `_bits`.
fn xbm_data_block(t: &[u8]) -> (r: Result<(usize, usize)>)
    ensures
        match xbm_data(t@) {
            Ok(d) => r is Ok && r->Ok_0.0 <= r->Ok_0.1 <= t@.len() && t@.subrange(r->Ok_0.0 as int, r->Ok_0.1 as int) == d,
            Err(e) => outcome(r) == Err::<(usize, usize), Failure>(e),
        },
{
    let n = t.len();
    let bits = match find_tag(t, &[0x5fu8, 0x62, 0x69, 0x74, 0x73]) { Some(v) => v, None => return Err(invalid_data("XBM bitmap array was not found")) };
    let open_brace: [u8; 1] = [0x7b];
    assert(open_brace@ =~= seq![0x7bu8]);
    let o = match find_tag(&t[bits..n], &open_brace) { Some(v) => v, None => return Err(invalid_data("XBM bitmap array was not opened")) };
    proof {
        lemma_first_tag_found(t@, seq![95u8, 98, 105, 116, 115], bits as int);
        lemma_first_tag_found(t@.subrange(bits as int, n as int), seq![123u8], o as int);
    }
    let open = bits + o + 1;
    let close_brace: [u8; 1] = [0x7d];
    assert(close_brace@ =~= seq![0x7du8]);
    let c = match find_tag(&t[open..n], &close_brace) { Some(v) => v, None => return Err(invalid_data("XBM bitmap array was not closed")) };
    proof {
        lemma_first_tag_found(t@.subrange(open as int, n as int), seq![125u8], c as int);
    }
    assert(t@.subrange(open as int, (open + c) as int) =~= t@.subrange(open as int, n as int).subrange(0, c as int));
    Ok((open, open + c))
}

/// Whether the bitmap is declared with 16-bit words.
fn xbm_uses_short_storage(t: &[u8]) -> (r: bool)
    ensures
        r == xbm_short(t@),
{
    match find_tag(t, &[0x5fu8, 0x62, 0x69, 0x74, 0x73]) {
        None => false,
        Some(bits) => find_tag(&t[0..bits], &[0x73u8, 0x68, 0x6f, 0x72, 0x74]).is_some(),
    }
}

/// The integers of the bitmap array's initializer.
fn parse_c_integer_tokens(d: &[u8]) -> (r: Result<Vec<u32>>)
    ensures
        match c_integers(d@, 0, Seq::empty()) {
            Ok(v) => r is Ok && r->Ok_0@ == v,
            Err(e) => outcome(r) == Err::<Vec<u32>, Failure>(e),
        },
{
    let n = d.len();
    let mut values: Vec<u32> = Vec::new();
    let mut pos: usize = 0;
    while pos < n
        invariant
            n == d@.len(),
            pos <= n,
            c_integers(d@, 0, Seq::empty()) == c_integers(d@, pos as int, values@),
        decreases n - pos,
    {
        if !is_dec_digit(d[pos]) {
            pos = pos + 1;
        } else if d[pos] == 48 && pos + 1 < n && (d[pos + 1] == 120 || d[pos + 1] == 88) {
            let hs = pos + 2;
            let e = run_end(d, hs, true);
            if e == hs {
                return Err(invalid_data("XBM hex literal has no digits"));
            }
            let v = digits_capped(d, hs, e, 16, 0x1_0000_0000);
            if v > 0xffff_ffff {
                return Err(invalid_data("XBM hex literal is invalid"));
            }
            values.push(v as u32);
            pos = e;
        } else {
            let e = run_end(d, pos, false);
            let v = digits_capped(d, pos, e, 10, 0x1_0000_0000);
            if v > 0xffff_ffff {
                return Err(invalid_data("XBM integer is invalid"));
            }
            values.push(v as u32);
            pos = e;
        }
    }
    if values.len() == 0 {
        return Err(invalid_data("XBM bitmap array is empty"));
    }
    Ok(values)
}

/// The low `n` bits of `v` in reverse order.
pub fn reverse_bits(v: u32, n: u32) -> (r: u32)
    requires
        n <= 16,
    ensures
        r == reversed_bits(v as int, n as nat, 0),
        n == 8 ==> r < 256,
        n == 16 ==> r < 65536,
{
    let mut x = v;
    let mut acc: u32 = 0;
    let mut i: u32 = 0;
    proof {
        reveal_with_fuel(two_pow, 17);
    }
    while i < n
        invariant
            i <= n <= 16,
            acc < two_pow(i as nat),
            two_pow(16) == 65536,
            two_pow(8) == 256,
            reversed_bits(v as int, n as nat, 0) == reversed_bits(x as int, (n - i) as nat, acc as int),
        decreases n - i,
    {
        proof {
            lemma_two_pow_mono((i + 1) as nat, 16);
            assert(two_pow((i + 1) as nat) == 2 * two_pow(i as nat));
        }
        acc = acc * 2 + x % 2;
        x = x / 2;
        i = i + 1;
    }
    acc
}

/// The bytes of one row of a `width`-pixel bitmap.
fn xbm_row_bytes(width: u32) -> (r: usize)
    ensures
        r == (width + 7) / 8,
{
    (width / 8 + if width % 8 == 0 { 0 } else { 1 }) as usize
}

/// The bytes of `height` rows of `row_bytes`.
fn checked_frame_size(row_bytes: usize, height: u32) -> (r: Result<usize>)
    ensures
        row_bytes * height <= usize::MAX ==> r is Ok && r->Ok_0 == row_bytes * height,
        row_bytes * height > usize::MAX ==> outcome(r) == Err::<usize, Failure>(Failure::InvalidData),
{
    match row_bytes.checked_mul(height as usize) {
        Some(v) => Ok(v),
        None => Err(invalid_data("XBM frame size overflow")),
    }
}

/// The frame of a bitmap stored as bytes.
fn xbm_byte_frame(width: u32, height: u32, values: &[u32]) -> (r: Result<Vec<u8>>)
    ensures
        match xbm_byte_frame_spec(width as int, height as int, values@) {
            Ok(f) => r is Ok && r->Ok_0@ == f,
            Err(e) => outcome(r) == Err::<Vec<u8>, Failure>(e),
        },
{
    let row_bytes = xbm_row_bytes(width);
    let frame_size = match checked_frame_size(row_bytes, height) { Ok(v) => v, Err(e) => return Err(e) };
    if values.len() < frame_size {
        return Err(unexpected_eof(frame_size, values.len()));
    }
    let mut frame: Vec<u8> = Vec::new();
    let mut i: usize = 0;
    while i < frame_size
        invariant
            frame_size <= values@.len(),
            i <= frame_size,
            frame@ == Seq::new(i as nat, |k: int| reversed_bits(values@[k] as int % 256, 8, 0) as u8),
        decreases frame_size - i,
    {
        let b = reverse_bits(values[i] % 256, 8) as u8;
        frame.push(b);
        assert(frame@ =~= Seq::new((i + 1) as nat, |k: int| reversed_bits(values@[k] as int % 256, 8, 0) as u8));
        i = i + 1;
    }
    Ok(frame)
}

/// The frame of a bitmap stored as 16-bit words.
fn xbm_short_frame(width: u32, height: u32, values: &[u32]) -> (r: Result<Vec<u8>>)
    ensures
        match xbm_short_frame_spec(width as int, height as int, values@) {
            Ok(f) => r is Ok && r->Ok_0@ == f,
            Err(e) => outcome(r) == Err::<Vec<u8>, Failure>(e),
        },
{
    let row_bytes = xbm_row_bytes(width);
    let wpr = (width / 16 + if width % 16 == 0 { 0 } else { 1 }) as usize;
    assert(wpr == (width + 15) / 16);
    let h = height as usize;
    let needed = match wpr.checked_mul(h) { Some(v) => v, None => return Err(invalid_data("XBM word count overflow")) };
    if values.len() < needed {
        return Err(unexpected_eof(needed, values.len()));
    }
    if row_bytes.checked_mul(h).is_none() {
        return Err(invalid_data("XBM frame size overflow"));
    }
    assert(row_bytes <= 2 * wpr);
    let ghost vals = values@;
    let mut frame: Vec<u8> = Vec::new();
    let mut y: usize = 0;
    while y < h
        invariant
            vals == values@,
            needed == wpr * h,
            needed <= values@.len(),
            row_bytes <= 2 * wpr,
            y <= h,
            frame@ == concat_rows(y as int, |r: int| Seq::new(row_bytes as nat, |k: int| xbm_short_byte(vals, wpr as int, r, k))),
        decreases h - y,
    {
        proof {
            lemma_row_end(y as int, wpr as int, h as int);
        }
        let mut row: Vec<u8> = Vec::new();
        let mut k: usize = 0;
        while k < row_bytes
            invariant
                vals == values@,
                needed == wpr * h,
                needed <= values@.len(),
                row_bytes <= 2 * wpr,
                y < h,
                y * wpr + wpr <= needed,
                k <= row_bytes,
                row@ == Seq::new(k as nat, |j: int| xbm_short_byte(vals, wpr as int, y as int, j)),
            decreases row_bytes - k,
        {
            let idx = y * wpr + k / 2;
            let r = reverse_bits(values[idx] % 65536, 16);
            let b = if k % 2 == 0 { (r % 256) as u8 } else { (r / 256) as u8 };
            row.push(b);
            assert(row@ =~= Seq::new((k + 1) as nat, |j: int| xbm_short_byte(vals, wpr as int, y as int, j)));
            k = k + 1;
        }
        append_bytes(&mut frame, row.as_slice());
        y = y + 1;
    }
    Ok(frame)
}

/// The frame-checksum listing of an XBM image: one frame.
pub fn xbm_image_frame_hashes(input: &[u8]) -> (r: Result<Vec<AudioFrameHash>>)
    ensures
        listing_outcome(r) == single_listing(spec_xbm_image(input@)),
{
    if !is_utf8(input) {
        return Err(invalid_data("XBM file is not valid UTF-8"));
    }
    let width = match xbm_define(input, &[0x5fu8, 0x77, 0x69, 0x64, 0x74, 0x68], "_width") { Ok(v) => v, Err(e) => return Err(e) };
    let height = match xbm_define(input, &[0x5fu8, 0x68, 0x65, 0x69, 0x67, 0x68, 0x74], "_height") { Ok(v) => v, Err(e) => return Err(e) };
    let (open, close) = match xbm_data_block(input) { Ok(v) => v, Err(e) => return Err(e) };
    let values = match parse_c_integer_tokens(&input[open..close]) { Ok(v) => v, Err(e) => return Err(e) };
    let frame = if xbm_uses_short_storage(input) {
        match xbm_short_frame(width, height, values.as_slice()) { Ok(f) => f, Err(e) => return Err(e) }
    } else {
        match xbm_byte_frame(width, height, values.as_slice()) { Ok(f) => f, Err(e) => return Err(e) }
    };
    Ok(single_frame_listing(&frame))
}

} // verus!
