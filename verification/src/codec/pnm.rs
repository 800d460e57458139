use vstd::prelude::*;
use crate::bytes::{be16, sat, sat_add, u16_be};
use crate::error::{eof, invalid_data, outcome, unexpected_eof, Failure, Result, RmpegError};
use crate::bytes::append_bytes;
use crate::codec::digest::{listing_outcome, single_frame_listing, single_listing};
use crate::metadata::AudioFrameHash;
use crate::error::{join3, with_number};

verus! {

/// The fields of a binary PNM header that decoding needs; `kind` is the digit of the
/// magic (`4`, `5` or `6`).
#[derive(Debug, Clone, Copy, PartialEq, Eq)]
pub struct PnmHeader {
    pub kind: u8,
    pub width: usize,
    pub height: usize,
    pub max_value: u32,
    pub data_offset: usize,
}

/// Whether `c` is ASCII white space (space, tab, line feed, form feed, carriage return).
pub open spec fn is_space(c: u8) -> bool {
    c == 0x20 || c == 0x09 || c == 0x0a || c == 0x0c || c == 0x0d
}

/// Whether `c` is an ASCII digit.
pub open spec fn is_digit(c: u8) -> bool {
    0x30 <= c <= 0x39
}

/// The first position at or after `pos` that is not white space.
pub open spec fn skip_space(b: Seq<u8>, pos: int) -> int
    decreases b.len() - pos,
{
    if 0 <= pos < b.len() && is_space(b[pos]) { skip_space(b, pos + 1) } else { pos }
}

/// The end of the comment text at `pos`: the first line feed or carriage return.
pub open spec fn comment_end(b: Seq<u8>, pos: int) -> int
    decreases b.len() - pos,
{
    if 0 <= pos < b.len() && b[pos] != 0x0a && b[pos] != 0x0d { comment_end(b, pos + 1) } else { pos }
}

/// Skipping never goes back.
pub proof fn lemma_skips_forward(b: Seq<u8>, pos: int)
    ensures
        skip_space(b, pos) >= pos,
        comment_end(b, pos) >= pos,
        0 <= pos <= b.len() ==> skip_space(b, pos) <= b.len() && comment_end(b, pos) <= b.len(),
    decreases b.len() - pos,
{
    if 0 <= pos < b.len() {
        lemma_skips_forward(b, pos + 1);
    }
}

/// The first position at or after `pos` past white space and `#` comments.
pub open spec fn skip_spacing(b: Seq<u8>, pos: int) -> int
    decreases b.len() - pos,
{
    let p = skip_space(b, pos);
    if 0 <= pos <= b.len() && 0 <= p < b.len() && b[p] == 0x23 {
        proof {
            lemma_skips_forward(b, pos);
            lemma_skips_forward(b, p + 1);
        }
        skip_spacing(b, comment_end(b, p + 1))
    } else {
        p
    }
}

/// The end of the run of digits at `pos`.
pub open spec fn digits_end(b: Seq<u8>, pos: int) -> int
    decreases b.len() - pos,
{
    if 0 <= pos < b.len() && is_digit(b[pos]) { digits_end(b, pos + 1) } else { pos }
}

/// The decimal value of the digits `b[p..q]`.
pub open spec fn digits_value(b: Seq<u8>, p: int, q: int) -> int
    decreases q - p,
{
    if q <= p { 0 } else { digits_value(b, p, q - 1) * 10 + (b[q - 1] - 0x30) }
}

/// The number after the spacing at `pos` and the position after it; missing digits
/// and values beyond `u32` are errors.
pub open spec fn spec_next_u32(b: Seq<u8>, pos: int) -> core::result::Result<(int, int), Failure> {
    let p = skip_spacing(b, pos);
    let q = digits_end(b, p);
    if q == p || digits_value(b, p, q) > u32::MAX {
        Err(Failure::InvalidData)
    } else {
        Ok((digits_value(b, p, q), q))
    }
}

/// The start of the raster after the single white-space byte (or CR LF) that ends the
/// header at `pos`.
pub open spec fn spec_raster_offset(b: Seq<u8>, pos: int) -> core::result::Result<int, Failure> {
    if pos >= b.len() {
        Err(eof(sat(pos + 1), b.len() as int))
    } else if !is_space(b[pos]) {
        Err(Failure::InvalidData)
    } else if b[pos] == 0x0d && pos + 1 < b.len() && b[pos + 1] == 0x0a {
        Ok(pos + 2)
    } else {
        Ok(pos + 1)
    }
}

/// The header of a binary PNM image (`P4`, `P5` or `P6`): width, height, maximum value
/// (1 for a bitmap, else 1 to 65535) and where the raster starts.
pub open spec fn spec_pnm_header(b: Seq<u8>) -> core::result::Result<PnmHeader, Failure> {
    if b.len() < 2 {
        Err(eof(2, b.len() as int))
    } else if b[0] != 0x50 || !(b[1] == 0x34 || b[1] == 0x35 || b[1] == 0x36) {
        Err(Failure::InvalidData)
    } else {
        match spec_next_u32(b, 2) {
            Err(e) => Err(e),
            Ok((w, p1)) => if w == 0 {
                Err(Failure::InvalidData)
            } else {
                match spec_next_u32(b, p1) {
                    Err(e) => Err(e),
                    Ok((h, p2)) => if h == 0 {
                        Err(Failure::InvalidData)
                    } else {
                        let m = if b[1] == 0x34 { Ok((1int, p2)) } else { spec_next_u32(b, p2) };
                        match m {
                            Err(e) => Err(e),
                            Ok((max, p3)) => if max == 0 || max > 65535 {
                                Err(Failure::InvalidData)
                            } else {
                                match spec_raster_offset(b, p3) {
                                    Err(e) => Err(e),
                                    Ok(off) => Ok(PnmHeader { kind: (b[1] - 0x30) as u8, width: w as usize,
                                        height: h as usize, max_value: max as u32, data_offset: off as usize }),
                                }
                            },
                        }
                    },
                }
            },
        }
    }
}

/// `v` scaled from `0..=max` to `0..=255`, rounded half up and held at 255.
pub open spec fn scale8(v: int, max: int) -> int {
    if max == 255 { v } else if (2 * v * 255 + max) / (2 * max) > 255 { 255 } else { (2 * v * 255 + max) / (2 * max) }
}

/// `v` scaled from `0..=max` to `0..=65535`, rounded half up and held at 65535.
pub open spec fn scale16(v: int, max: int) -> int {
    if max == 65535 { v } else if (2 * v * 65535 + max) / (2 * max) > 65535 { 65535 } else { (2 * v * 65535 + max) / (2 * max) }
}

/// The frame of a PNM image: the packed bitmap rows as they are, 8-bit samples scaled
/// to 255, or 16-bit big-endian samples scaled to 65535 and stored little-endian.
pub open spec fn spec_pnm_frame(b: Seq<u8>, h: PnmHeader) -> core::result::Result<Seq<u8>, Failure> {
    let off = h.data_offset as int;
    if h.kind == 4 {
        let row = (h.width + 7) / 8;
        let size = row * h.height;
        if h.width + 7 > usize::MAX || size > usize::MAX || off + size > usize::MAX {
            Err(Failure::InvalidData)
        } else if off + size > b.len() {
            Err(eof(off + size, b.len() as int))
        } else {
            Ok(b.subrange(off, off + size))
        }
    } else {
        let channels = if h.kind == 5 { 1int } else { 3int };
        let comps = h.width * h.height * channels;
        let per = if h.max_value > 255 { 2int } else { 1int };
        if h.width * h.height > usize::MAX || comps > usize::MAX || comps * per > usize::MAX || off + comps * per > usize::MAX {
            Err(Failure::InvalidData)
        } else if off + comps * per > b.len() {
            Err(eof(off + comps * per, b.len() as int))
        } else if per == 1 {
            Ok(Seq::new(comps as nat, |i: int| scale8(b[off + i] as int, h.max_value as int) as u8))
        } else {
            Ok(Seq::new((2 * comps) as nat, |k: int| {
                let s = scale16(u16_be(b, off + 2 * (k / 2)), h.max_value as int);
                (if k % 2 == 0 { s % 256 } else { s / 256 }) as u8
            }))
        }
    }
}

/// The decoded frame of a binary PNM image.
pub open spec fn spec_pnm_image(b: Seq<u8>) -> core::result::Result<Seq<u8>, Failure> {
    match spec_pnm_header(b) {
        Err(e) => Err(e),
        Ok(h) => spec_pnm_frame(b, h),
    }
}

/// Monotonicity of digit runs: more digits never make a smaller number.
proof fn lemma_digits_grow(b: Seq<u8>, p: int, q: int)
    requires
        p <= q,
        forall|i: int| p <= i < q ==> #[trigger] is_digit(b[i]),
    ensures
        digits_value(b, p, q) >= 0,
        forall|r: int| p <= r <= q ==> #[trigger] digits_value(b, p, r) <= digits_value(b, p, q),
    decreases q - p,
{
    if q > p {
        assert(is_digit(b[q - 1]));
        lemma_digits_grow(b, p, q - 1);
    }
}

/// A cursor over the text of a PNM header.
pub struct PnmHeaderReader<'a> {
    bytes: &'a [u8],
    pos: usize,
}

impl<'a> PnmHeaderReader<'a> {
    /// The bytes this cursor reads.
    pub closed spec fn data(&self) -> Seq<u8> {
        self.bytes@
    }

    /// The cursor's position.
    pub closed spec fn at(&self) -> int {
        self.pos as int
    }

    /// A cursor at `pos` of `bytes`.
    pub fn new(bytes: &'a [u8], pos: usize) -> (r: Self)
        ensures
            r.data() == bytes@,
            r.at() == pos,
    {
        PnmHeaderReader { bytes, pos }
    }

    /// Moves past white space and `#` comments.
    pub fn skip_spacing_and_comments(&mut self)
        requires
            old(self).at() <= old(self).data().len(),
        ensures
            final(self).data() == old(self).data(),
            final(self).at() == skip_spacing(old(self).data(), old(self).at()),
            final(self).at() <= final(self).data().len(),
    {
        let bytes = self.bytes;
        let len = bytes.len();
        let mut pos = self.pos;
        loop
            invariant
                len == bytes@.len(),
                pos <= len,
                self.bytes@ == bytes@,
                bytes@ == old(self).data(),
                skip_spacing(bytes@, old(self).at()) == skip_spacing(bytes@, pos as int),
            decreases len - pos,
        {
            let ghost start = pos as int;
            while pos < len && (bytes[pos] == 0x20 || bytes[pos] == 0x09 || bytes[pos] == 0x0a || bytes[pos] == 0x0c
                || bytes[pos] == 0x0d)
                invariant
                    len == bytes@.len(),
                    start <= pos <= len,
                    skip_space(bytes@, start) == skip_space(bytes@, pos as int),
                decreases len - pos,
            {
                pos = pos + 1;
            }
            if !(pos < len && bytes[pos] == 0x23) {
                self.pos = pos;
                return;
            }
            let ghost p = pos as int;
            pos = pos + 1;
            while pos < len && bytes[pos] != 0x0a && bytes[pos] != 0x0d
                invariant
                    len == bytes@.len(),
                    p + 1 <= pos <= len,
                    comment_end(bytes@, p + 1) == comment_end(bytes@, pos as int),
                decreases len - pos,
            {
                pos = pos + 1;
            }
        }
    }

    /// Reads the next number; `label` names it in errors.
    pub fn next_u32(&mut self, label: &str) -> (r: Result<u32>)
        requires
            old(self).at() <= old(self).data().len(),
        ensures
            final(self).data() == old(self).data(),
            final(self).at() <= final(self).data().len(),
            match spec_next_u32(old(self).data(), old(self).at()) {
                Ok((v, q)) => r == Ok::<u32, RmpegError>(v as u32) && final(self).at() == q && 0 <= v <= u32::MAX,
                Err(e) => outcome(r) == Err::<u32, Failure>(e),
            },
    {
        self.skip_spacing_and_comments();
        let bytes = self.bytes;
        let len = bytes.len();
        let start = self.pos;
        let mut pos = start;
        let mut value: u64 = 0;
        while pos < len && 0x30 <= bytes[pos] && bytes[pos] <= 0x39
            invariant
                len == bytes@.len(),
                start <= pos <= len,
                forall|i: int| start <= i < pos ==> #[trigger] is_digit(bytes@[i]),
                digits_end(bytes@, start as int) == digits_end(bytes@, pos as int),
                value == (if digits_value(bytes@, start as int, pos as int) > u32::MAX { u32::MAX as int + 1 }
                    else { digits_value(bytes@, start as int, pos as int) }),
            decreases len - pos,
        {
            let d = (bytes[pos] - 0x30) as u64;
            proof {
                lemma_digits_grow(bytes@, start as int, pos as int);
            }
            if value <= 0xffff_ffff {
                let next = value * 10 + d;
                value = if next > 0xffff_ffff { 0x1_0000_0000 } else { next };
            }
            pos = pos + 1;
        }
        proof {
            lemma_digits_grow(bytes@, start as int, pos as int);
        }
        self.pos = pos;
        if start == pos {
            return Err(RmpegError::InvalidData(join3("missing ", label, "")));
        }
        if value > 0xffff_ffff {
            return Err(RmpegError::InvalidData(join3(label, " is too large", "")));
        }
        Ok(value as u32)
    }

    /// The start of the raster after the byte that ends the header.
    pub fn raster_offset(&mut self) -> (r: Result<usize>)
        requires
            old(self).at() <= old(self).data().len(),
        ensures
            match spec_raster_offset(old(self).data(), old(self).at()) {
                Ok(p) => r == Ok::<usize, RmpegError>(p as usize),
                Err(e) => outcome(r) == Err::<usize, Failure>(e),
            },
    {
        let bytes = self.bytes;
        let len = bytes.len();
        let pos = self.pos;
        if pos >= len {
            return Err(unexpected_eof(sat_add(pos, 1), len));
        }
        let separator = bytes[pos];
        if !(separator == 0x20 || separator == 0x09 || separator == 0x0a || separator == 0x0c || separator == 0x0d) {
            return Err(invalid_data("PNM raster is missing header separator"));
        }
        let mut next = pos + 1;
        if separator == 0x0d && next < len && bytes[next] == 0x0a {
            next = next + 1;
        }
        self.pos = next;
        Ok(next)
    }
}

/// Reads the header of a binary PNM image.
pub fn pnm_header(bytes: &[u8]) -> (r: Result<PnmHeader>)
    ensures
        outcome(r) == spec_pnm_header(bytes@),
        r is Ok ==> (r->Ok_0.kind == 4 || r->Ok_0.kind == 5 || r->Ok_0.kind == 6) && 0 < r->Ok_0.max_value <= 65535,
{
    if bytes.len() < 2 {
        return Err(unexpected_eof(2, bytes.len()));
    }
    if bytes[0] != 0x50 || !(bytes[1] == 0x34 || bytes[1] == 0x35 || bytes[1] == 0x36) {
        return Err(invalid_data("missing binary PNM signature"));
    }
    let mut reader = PnmHeaderReader::new(bytes, 2);
    let width = match reader.next_u32("PNM width") { Ok(v) => v, Err(e) => return Err(e) };
    if width == 0 {
        return Err(invalid_data("PNM width must be nonzero"));
    }
    let height = match reader.next_u32("PNM height") { Ok(v) => v, Err(e) => return Err(e) };
    if height == 0 {
        return Err(invalid_data("PNM height must be nonzero"));
    }
    let max_value: u32 = if bytes[1] == 0x34 {
        1
    } else {
        let m = match reader.next_u32("PNM max value") { Ok(v) => v, Err(e) => return Err(e) };
        if m == 0 || m > 65535 {
            return Err(RmpegError::InvalidData(with_number("invalid PNM max value ", m as u64)));
        }
        m
    };
    let data_offset = match reader.raster_offset() { Ok(p) => p, Err(e) => return Err(e) };
    Ok(PnmHeader { kind: bytes[1] - 0x30, width: width as usize, height: height as usize, max_value, data_offset })
}

/// `v` scaled to 255, rounded half up and held at 255.
fn pnm_scale_u8(value: u32, max_value: u32) -> (r: u8)
    requires
        value <= 255,
        0 < max_value <= 65535,
    ensures
        r == scale8(value as int, max_value as int),
{
    if max_value == 255 {
        return value as u8;
    }
    let num = 2 * (value as u64) * 255 + max_value as u64;
    let q = num / (2 * max_value as u64);
    if q > 255 { 255 } else { q as u8 }
}

/// `v` scaled to 65535, rounded half up and held at 65535.
fn pnm_scale_u16(value: u32, max_value: u32) -> (r: u16)
    requires
        value <= 65535,
        0 < max_value <= 65535,
    ensures
        r == scale16(value as int, max_value as int),
{
    if max_value == 65535 {
        return value as u16;
    }
    assert(2 * value * 65535 <= 2 * 65535 * 65535) by (nonlinear_arith)
        requires
            value <= 65535,
    ;
    let num = 2 * (value as u64) * 65535 + max_value as u64;
    let q = num / (2 * max_value as u64);
    if q > 65535 { 65535 } else { q as u16 }
}

/// Decodes the raster of a PNM image.
pub fn pnm_frame(bytes: &[u8], header: &PnmHeader) -> (r: Result<Vec<u8>>)
    requires
        header.kind == 4 || header.kind == 5 || header.kind == 6,
        0 < header.max_value <= 65535,
    ensures
        match spec_pnm_frame(bytes@, *header) {
            Ok(f) => r is Ok && r->Ok_0@ == f,
            Err(e) => outcome(r) == Err::<Vec<u8>, Failure>(e),
        },
{
    let off = header.data_offset;
    let len = bytes.len();
    if header.kind == 4 {
        if header.width > usize::MAX - 7 {
            return Err(invalid_data("PNM row size overflow"));
        }
        let row = (header.width + 7) / 8;
        let size = match row.checked_mul(header.height) { Some(v) => v, None => return Err(invalid_data("PNM frame size overflow")) };
        if size > usize::MAX - off {
            return Err(invalid_data("PNM data range overflow"));
        }
        let end = off + size;
        if end > len {
            return Err(unexpected_eof(end, len));
        }
        let mut f: Vec<u8> = Vec::new();
        append_bytes(&mut f, &bytes[off..end]);
        return Ok(f);
    }
    let channels: usize = if header.kind == 5 { 1 } else { 3 };
    let pixels = match header.width.checked_mul(header.height) { Some(v) => v, None => return Err(invalid_data("PNM component count overflow")) };
    let comps = match pixels.checked_mul(channels) { Some(v) => v, None => return Err(invalid_data("PNM component count overflow")) };
    let per: usize = if header.max_value > 255 { 2 } else { 1 };
    let size = match comps.checked_mul(per) { Some(v) => v, None => return Err(invalid_data("PNM data size overflow")) };
    if size > usize::MAX - off {
        return Err(invalid_data("PNM data range overflow"));
    }
    let end = off + size;
    if end > len {
        return Err(unexpected_eof(end, len));
    }
    if per == 1 {
        if header.max_value == 255 {
            let mut f: Vec<u8> = Vec::new();
            append_bytes(&mut f, &bytes[off..end]);
            assert(f@ =~= Seq::new(comps as nat, |i: int| scale8(bytes@[off + i] as int, header.max_value as int) as u8));
            return Ok(f);
        }
        let mut frame: Vec<u8> = Vec::new();
        let mut i: usize = 0;
        while i < comps
            invariant
                len == bytes@.len(),
                off + comps <= len,
                0 < header.max_value <= 65535,
                i <= comps,
                frame@.len() == i,
                forall|j: int| 0 <= j < i ==> #[trigger] frame@[j] == scale8(bytes@[off + j] as int, header.max_value as int) as u8,
            decreases comps - i,
        {
            frame.push(pnm_scale_u8(bytes[off + i] as u32, header.max_value));
            i = i + 1;
        }
        assert(frame@ =~= Seq::new(comps as nat, |j: int| scale8(bytes@[off + j] as int, header.max_value as int) as u8));
        return Ok(frame);
    }
    let mut frame: Vec<u8> = Vec::new();
    let mut i: usize = 0;
    while i < comps
        invariant
            len == bytes@.len(),
            off + 2 * comps <= len,
            0 < header.max_value <= 65535,
            i <= comps,
            frame@.len() == 2 * i,
            forall|k: int| 0 <= k < 2 * i ==> #[trigger] frame@[k] == ({
                let s = scale16(u16_be(bytes@, off + 2 * (k / 2)), header.max_value as int);
                (if k % 2 == 0 { s % 256 } else { s / 256 }) as u8
            }),
        decreases comps - i,
    {
        let v = be16(bytes, off + 2 * i);
        let s = pnm_scale_u16(v as u32, header.max_value);
        frame.push((s % 256) as u8);
        frame.push((s / 256) as u8);
        assert((2 * i) / 2 == i && (2 * i + 1) / 2 == i && (2 * i) % 2 == 0 && (2 * i + 1) % 2 == 1);
        i = i + 1;
    }
    assert(frame@ =~= Seq::new((2 * comps) as nat, |k: int| {
        let s = scale16(u16_be(bytes@, off + 2 * (k / 2)), header.max_value as int);
        (if k % 2 == 0 { s % 256 } else { s / 256 }) as u8
    }));
    Ok(frame)
}

/// The frame-checksum listing of a binary PNM image: one frame.
pub fn pnm_image_frame_hashes(input: &[u8]) -> (r: Result<Vec<AudioFrameHash>>)
    ensures
        listing_outcome(r) == single_listing(spec_pnm_image(input@)),
{
    let header = match pnm_header(input) { Ok(h) => h, Err(e) => return Err(e) };
    match pnm_frame(input, &header) {
        Ok(frame) => Ok(single_frame_listing(&frame)),
        Err(e) => Err(e),
    }
}

} // verus!
