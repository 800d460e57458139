use vstd::prelude::*;
use crate::bytes::{be16, be32, has_tag, le16, le32, tag_at, u16_be, u16_le, u32_be, u32_le};
use crate::error::{eof, invalid_data, outcome, unexpected_eof, unsupported, Failure, Result, RmpegError};
use crate::bytes::append_bytes;
use crate::codec::digest::{frame_entry, frame_hash, listing_outcome, listing_view, FrameHashView};
use crate::codec::raster::{concat_rows, lemma_index_split, lemma_row_end};
use crate::metadata::AudioFrameHash;
use crate::error::{with_number, push_decimal};

verus! {

/// The fields of a DPX header that decoding needs.
#[derive(Debug, Clone, Copy, PartialEq, Eq)]
pub struct DpxHeader {
    pub big_endian: bool,
    pub file_size: usize,
    pub data_offset: usize,
    pub width: usize,
    pub height: usize,
    pub bit_depth: u8,
    pub packing: u16,
    pub data_bytes: usize,
}

/// The 16-bit field at `p`, in the file's byte order.
pub open spec fn dpx_u16(b: Seq<u8>, p: int, big_endian: bool) -> int {
    if big_endian { u16_be(b, p) } else { u16_le(b, p) }
}

/// The 32-bit field at `p`, in the file's byte order.
pub open spec fn dpx_u32(b: Seq<u8>, p: int, big_endian: bool) -> int {
    if big_endian { u32_be(b, p) } else { u32_le(b, p) }
}

/// `v` rounded up to a multiple of four, unless that passes the machine word.
pub open spec fn spec_align4(v: int) -> core::result::Result<int, Failure> {
    if v + 3 > usize::MAX { Err(Failure::InvalidData) } else { Ok((v + 3) / 4 * 4) }
}

/// `n` bytes per pixel of a row of `width` pixels, padded to four bytes.
pub open spec fn spec_padded_row(width: int, n: int) -> core::result::Result<int, Failure> {
    if width * n > usize::MAX { Err(Failure::InvalidData) } else { spec_align4(width * n) }
}

/// The stored bytes of one row: 8-bit RGB padded to four bytes, 10-bit RGB packed in
/// one 32-bit word per pixel, 16-bit RGB padded to four bytes.
pub open spec fn spec_dpx_row_bytes(width: int, bit_depth: int, packing: int) -> core::result::Result<int, Failure> {
    if bit_depth == 8 && packing == 0 {
        spec_padded_row(width, 3)
    } else if bit_depth == 10 && packing == 1 {
        if width * 4 > usize::MAX { Err(Failure::InvalidData) } else { Ok(width * 4) }
    } else if bit_depth == 16 && packing == 0 {
        spec_padded_row(width, 6)
    } else {
        Err(Failure::Unsupported)
    }
}

/// The header of the DPX image at `base`: `SDPX` (big-endian) or `XPDS` (little-endian),
/// one image element of nonzero size, RGB, not encoded, a supported depth and packing.
pub open spec fn spec_dpx_header(b: Seq<u8>, base: int) -> core::result::Result<DpxHeader, Failure> {
    let be = has_tag(b, base, seq![0x53u8, 0x44, 0x50, 0x58]);
    let file_size = dpx_u32(b, base + 16, be);
    let offset = dpx_u32(b, base + 4, be);
    let elements = dpx_u16(b, base + 770, be);
    let w = dpx_u32(b, base + 772, be);
    let h = dpx_u32(b, base + 776, be);
    let depth = b[base + 803];
    let packing = dpx_u16(b, base + 804, be);
    let encoding = dpx_u16(b, base + 806, be);
    if base + 812 > usize::MAX {
        Err(Failure::InvalidData)
    } else if base + 812 > b.len() {
        Err(eof(base + 812, b.len() as int))
    } else if !be && !has_tag(b, base, seq![0x58u8, 0x50, 0x44, 0x53]) {
        Err(Failure::InvalidData)
    } else if elements != 1 {
        Err(Failure::Unsupported)
    } else if w == 0 || h == 0 {
        Err(Failure::InvalidData)
    } else if b[base + 800] != 50 {
        Err(Failure::Unsupported)
    } else if encoding != 0 {
        Err(Failure::Unsupported)
    } else {
        match spec_dpx_row_bytes(w, depth as int, packing) {
            Err(e) => Err(e),
            Ok(row) => if row * h > usize::MAX {
                Err(Failure::InvalidData)
            } else {
                Ok(DpxHeader {
                    big_endian: be,
                    file_size: file_size as usize,
                    data_offset: offset as usize,
                    width: w as usize,
                    height: h as usize,
                    bit_depth: depth,
                    packing: packing as u16,
                    data_bytes: (row * h) as usize,
                })
            },
        }
    }
}

/// The stored row size of a header that passed its checks.
pub open spec fn dpx_stored(h: DpxHeader) -> int {
    match spec_dpx_row_bytes(h.width as int, h.bit_depth as int, h.packing as int) {
        Ok(s) => s,
        Err(_) => 0,
    }
}

/// What every header returned by `dpx_header` satisfies.
pub open spec fn dpx_header_valid(h: DpxHeader) -> bool {
    &&& spec_dpx_row_bytes(h.width as int, h.bit_depth as int, h.packing as int) is Ok
    &&& h.width > 0 && h.height > 0
    &&& h.data_bytes == dpx_stored(h) * h.height
}

/// Output row `y` of an 8- or 16-bit image: the first `out_row` bytes of stored row `y`.
pub open spec fn dpx_row(b: Seq<u8>, start: int, stored: int, out_row: int, y: int) -> Seq<u8> {
    b.subrange(start + y * stored, start + y * stored + out_row)
}

/// How far component `k` (0 red, 1 green, 2 blue) sits up a packed 10-bit word.
pub open spec fn dpx10_shift(k: int) -> u32 {
    if k == 0 { 22 } else if k == 1 { 12 } else { 2 }
}

/// Component `k` of pixel `p` of a 10-bit image whose data starts at `start`.
pub open spec fn dpx10_component(b: Seq<u8>, start: int, h: DpxHeader, k: int, p: int) -> u32 {
    let w = h.width as int;
    ((dpx_u32(b, start + (p / w) * dpx_stored(h) + 4 * (p % w), h.big_endian) as u32) >> dpx10_shift(k)) & 0x3ff
}

/// Plane `k` of a 10-bit image as little-endian 16-bit samples.
pub open spec fn dpx10_plane(b: Seq<u8>, start: int, h: DpxHeader, k: int) -> Seq<u8> {
    Seq::new((2 * h.width * h.height) as nat, |j: int| {
        let c = dpx10_component(b, start, h, k, j / 2);
        if j % 2 == 0 { (c & 0xff) as u8 } else { (c >> 8) as u8 }
    })
}

/// The decoded frame of the image at `base`: 8- and 16-bit rows without their padding,
/// 10-bit data as green, blue and red planes of 16-bit samples.
pub open spec fn spec_dpx_frame(b: Seq<u8>, base: int, h: DpxHeader) -> core::result::Result<Seq<u8>, Failure> {
    let start = base + h.data_offset;
    let end = start + h.data_bytes;
    let stored = dpx_stored(h);
    let bpp: int = if h.bit_depth == 8 { 3 } else { 6 };
    if start > usize::MAX || end > usize::MAX {
        Err(Failure::InvalidData)
    } else if end > b.len() {
        Err(eof(end, b.len() as int))
    } else if h.bit_depth == 10 {
        if h.width * h.height > usize::MAX {
            Err(Failure::InvalidData)
        } else {
            Ok(dpx10_plane(b, start, h, 1) + dpx10_plane(b, start, h, 2) + dpx10_plane(b, start, h, 0))
        }
    } else if h.width * bpp > usize::MAX || h.width * bpp * h.height > usize::MAX {
        Err(Failure::InvalidData)
    } else {
        Ok(concat_rows(h.height as int, |y: int| dpx_row(b, start, stored, h.width * bpp, y)))
    }
}

/// The size and format that every image of a sequence must share.
pub open spec fn dpx_shape(h: DpxHeader) -> (usize, usize, u8, u16) {
    (h.width, h.height, h.bit_depth, h.packing)
}

/// The listing of the DPX images from `pos` on, after the lines `acc`: each image of the
/// shape of the first, the next one at the end its file size gives when that covers the
/// data and fits the input, else right after its data.
pub open spec fn dpx_listing(b: Seq<u8>, pos: int, shape: Option<(usize, usize, u8, u16)>, acc: Seq<FrameHashView>) -> core::result::Result<Seq<FrameHashView>, Failure>
    decreases (if pos < b.len() { b.len() - pos } else { 0 }),
{
    if pos >= b.len() {
        if acc.len() == 0 { Err(Failure::InvalidData) } else { Ok(acc) }
    } else {
        match spec_dpx_header(b, pos) {
            Err(e) => Err(e),
            Ok(h) => if shape is Some && shape != Some(dpx_shape(h)) {
                Err(Failure::Unsupported)
            } else {
                match spec_dpx_frame(b, pos, h) {
                    Err(e) => Err(e),
                    Ok(f) => {
                        let required = h.data_offset + h.data_bytes;
                        let next = if h.file_size >= required && pos + h.file_size <= b.len() { pos + h.file_size } else { pos + required };
                        if required > usize::MAX {
                            Err(Failure::InvalidData)
                        } else if next <= pos {
                            Err(Failure::InvalidData)
                        } else {
                            dpx_listing(b, next, Some(dpx_shape(h)), acc.push(frame_entry(acc.len() as int, f)))
                        }
                    },
                }
            },
        }
    }
}

/// The 16-bit field at `p` in the file's byte order.
fn dpx_read16(bytes: &[u8], p: usize, big_endian: bool) -> (r: u16)
    requires
        p + 2 <= bytes@.len(),
    ensures
        r == dpx_u16(bytes@, p as int, big_endian),
{
    if big_endian { be16(bytes, p) } else { le16(bytes, p) }
}

/// The 32-bit field at `p` in the file's byte order.
fn dpx_read32(bytes: &[u8], p: usize, big_endian: bool) -> (r: u32)
    requires
        p + 4 <= bytes@.len(),
    ensures
        r == dpx_u32(bytes@, p as int, big_endian),
{
    if big_endian { be32(bytes, p) } else { le32(bytes, p) }
}

/// Rounds `value` up to a multiple of four.
fn dpx_align4(value: usize) -> (r: Result<usize>)
    ensures
        match spec_align4(value as int) {
            Ok(v) => r is Ok && r->Ok_0 == v,
            Err(e) => outcome(r) == Err::<usize, Failure>(e),
        },
{
    if value > usize::MAX - 3 {
        return Err(invalid_data("DPX row alignment overflow"));
    }
    Ok((value + 3) / 4 * 4)
}

/// The stored bytes of one row of `width` pixels.
pub fn dpx_stored_row_bytes(width: usize, bit_depth: u8, packing: u16) -> (r: Result<usize>)
    ensures
        match spec_dpx_row_bytes(width as int, bit_depth as int, packing as int) {
            Ok(v) => r is Ok && r->Ok_0 == v,
            Err(e) => outcome(r) == Err::<usize, Failure>(e),
        },
{
    if bit_depth == 8 && packing == 0 {
        match width.checked_mul(3) {
            Some(v) => dpx_align4(v),
            None => Err(invalid_data("DPX row size overflow")),
        }
    } else if bit_depth == 10 && packing == 1 {
        match width.checked_mul(4) {
            Some(v) => Ok(v),
            None => Err(invalid_data("DPX row size overflow")),
        }
    } else if bit_depth == 16 && packing == 0 {
        match width.checked_mul(6) {
            Some(v) => dpx_align4(v),
            None => Err(invalid_data("DPX row size overflow")),
        }
    } else {
        let mut m = with_number("unsupported DPX bit depth ", bit_depth as u64);
        m.append(" with packing ");
        push_decimal(&mut m, packing as u64);
        Err(RmpegError::Unsupported(m))
    }
}

/// Reads the header of the DPX image at `base`.
pub fn dpx_header(bytes: &[u8], base: usize) -> (r: Result<DpxHeader>)
    ensures
        outcome(r) == spec_dpx_header(bytes@, base as int),
        r is Ok ==> dpx_header_valid(r->Ok_0),
{
    let len = bytes.len();
    if base > usize::MAX - 812 {
        return Err(invalid_data("DPX header range overflow"));
    }
    if base + 812 > len {
        return Err(unexpected_eof(base + 812, len));
    }
    let big_endian = if tag_at(bytes, base, &[0x53u8, 0x44, 0x50, 0x58]) {
        true
    } else if tag_at(bytes, base, &[0x58u8, 0x50, 0x44, 0x53]) {
        false
    } else {
        return Err(invalid_data("missing DPX magic"));
    };
    let file_size = dpx_read32(bytes, base + 16, big_endian) as usize;
    let image_offset = dpx_read32(bytes, base + 4, big_endian) as usize;
    let element_count = dpx_read16(bytes, base + 770, big_endian);
    if element_count != 1 {
        return Err(RmpegError::Unsupported(with_number("unsupported DPX image element count ", element_count as u64)));
    }
    let width = dpx_read32(bytes, base + 772, big_endian) as usize;
    let height = dpx_read32(bytes, base + 776, big_endian) as usize;
    if width == 0 || height == 0 {
        return Err(invalid_data("DPX dimensions must be nonzero"));
    }
    let descriptor = bytes[base + 800];
    if descriptor != 50 {
        return Err(RmpegError::Unsupported(with_number("unsupported DPX descriptor ", descriptor as u64)));
    }
    let bit_depth = bytes[base + 803];
    let packing = dpx_read16(bytes, base + 804, big_endian);
    let encoding = dpx_read16(bytes, base + 806, big_endian);
    if encoding != 0 {
        return Err(RmpegError::Unsupported(with_number("unsupported DPX encoding ", encoding as u64)));
    }
    let row_bytes = match dpx_stored_row_bytes(width, bit_depth, packing) { Ok(v) => v, Err(e) => return Err(e) };
    let data_bytes = match row_bytes.checked_mul(height) {
        Some(v) => v,
        None => return Err(invalid_data("DPX image data size overflow")),
    };
    Ok(DpxHeader { big_endian, file_size, data_offset: image_offset, width, height, bit_depth, packing, data_bytes })
}

/// The rows of an 8- or 16-bit image without their padding.
fn dpx_frame_unpadded_rows(bytes: &[u8], data_start: usize, header: &DpxHeader, bytes_per_pixel: usize) -> (r: Result<Vec<u8>>)
    requires
        dpx_header_valid(*header),
        header.bit_depth != 10,
        bytes_per_pixel == (if header.bit_depth == 8 { 3usize } else { 6usize }),
        data_start + header.data_bytes <= bytes@.len(),
    ensures
        match spec_dpx_frame(bytes@, data_start - header.data_offset, *header) {
            Ok(f) => r is Ok && r->Ok_0@ == f,
            Err(e) => outcome(r) == Err::<Vec<u8>, Failure>(e),
        },
{
    let row_bytes = match header.width.checked_mul(bytes_per_pixel) {
        Some(v) => v,
        None => return Err(invalid_data("DPX output row size overflow")),
    };
    let stored = match dpx_stored_row_bytes(header.width, header.bit_depth, header.packing) { Ok(v) => v, Err(e) => return Err(e) };
    if row_bytes.checked_mul(header.height).is_none() {
        return Err(invalid_data("DPX output frame size overflow"));
    }
    let h = header.height;
    let len = bytes.len();
    let ghost b = bytes@;
    let ghost bpp: int = if header.bit_depth == 8 { 3 } else { 6 };
    assert(row_bytes <= stored);
    let mut frame: Vec<u8> = Vec::new();
    let mut y: usize = 0;
    while y < h
        invariant
            len == bytes@.len(),
            h == header.height,
            stored == dpx_stored(*header),
            header.data_bytes == stored * h,
            row_bytes <= stored,
            data_start + header.data_bytes <= bytes@.len(),
            b == bytes@,
            y <= h,
            frame@ == concat_rows(y as int, |r: int| dpx_row(b, data_start as int, stored as int, row_bytes as int, r)),
        decreases h - y,
    {
        proof {
            lemma_row_end(y as int, stored as int, h as int);
        }
        let start = data_start + y * stored;
        append_bytes(&mut frame, &bytes[start..start + row_bytes]);
        y = y + 1;
    }
    proof {
        let f1 = |r: int| dpx_row(b, data_start as int, stored as int, row_bytes as int, r);
        let f2 = |r: int| dpx_row(bytes@, (data_start - header.data_offset) + header.data_offset, dpx_stored(*header), header.width * bpp, r);
        assert(f1 =~= f2);
    }
    Ok(frame)
}

/// The green, blue and red planes of a packed 10-bit image.
fn dpx_frame_10(bytes: &[u8], data_start: usize, header: &DpxHeader) -> (r: Result<Vec<u8>>)
    requires
        dpx_header_valid(*header),
        header.bit_depth == 10,
        data_start + header.data_bytes <= bytes@.len(),
    ensures
        match spec_dpx_frame(bytes@, data_start - header.data_offset, *header) {
            Ok(f) => r is Ok && r->Ok_0@ == f,
            Err(e) => outcome(r) == Err::<Vec<u8>, Failure>(e),
        },
{
    let pixels = match header.width.checked_mul(header.height) {
        Some(v) => v,
        None => return Err(invalid_data("DPX pixel count overflow")),
    };
    let stored = match dpx_stored_row_bytes(header.width, header.bit_depth, header.packing) { Ok(v) => v, Err(e) => return Err(e) };
    let w = header.width;
    let be = header.big_endian;
    let len = bytes.len();
    let ghost b = bytes@;
    let ghost start = data_start as int;
    let mut red: Vec<u8> = Vec::new();
    let mut green: Vec<u8> = Vec::new();
    let mut blue: Vec<u8> = Vec::new();
    let mut p: usize = 0;
    while p < pixels
        invariant
            len == bytes@.len(),
            w == header.width,
            be == header.big_endian,
            w > 0,
            pixels == w * header.height,
            stored == dpx_stored(*header),
            stored == 4 * w,
            header.data_bytes == stored * header.height,
            data_start + header.data_bytes <= bytes@.len(),
            b == bytes@,
            start == data_start,
            p <= pixels,
            red@ == Seq::new((2 * p) as nat, |j: int| { let c = dpx10_component(b, start, *header, 0, j / 2); if j % 2 == 0 { (c & 0xff) as u8 } else { (c >> 8) as u8 } }),
            green@ == Seq::new((2 * p) as nat, |j: int| { let c = dpx10_component(b, start, *header, 1, j / 2); if j % 2 == 0 { (c & 0xff) as u8 } else { (c >> 8) as u8 } }),
            blue@ == Seq::new((2 * p) as nat, |j: int| { let c = dpx10_component(b, start, *header, 2, j / 2); if j % 2 == 0 { (c & 0xff) as u8 } else { (c >> 8) as u8 } }),
        decreases pixels - p,
    {
        let row = p / w;
        let x = p % w;
        proof {
            lemma_index_split(p as int, w as int, header.height as int);
            lemma_row_end(row as int, stored as int, header.height as int);
        }
        let pos = data_start + row * stored + 4 * x;
        let word = dpx_read32(bytes, pos, be);
        let cr = (word >> 22u32) & 0x3ff;
        let cg = (word >> 12u32) & 0x3ff;
        let cb = (word >> 2u32) & 0x3ff;
        red.push((cr & 0xff) as u8);
        red.push((cr >> 8) as u8);
        green.push((cg & 0xff) as u8);
        green.push((cg >> 8) as u8);
        blue.push((cb & 0xff) as u8);
        blue.push((cb >> 8) as u8);
        proof {
            assert(dpx10_component(b, start, *header, 0, p as int) == cr);
            assert(dpx10_component(b, start, *header, 1, p as int) == cg);
            assert(dpx10_component(b, start, *header, 2, p as int) == cb);
            assert(red@ =~= Seq::new((2 * (p + 1)) as nat, |j: int| { let c = dpx10_component(b, start, *header, 0, j / 2); if j % 2 == 0 { (c & 0xff) as u8 } else { (c >> 8) as u8 } }));
            assert(green@ =~= Seq::new((2 * (p + 1)) as nat, |j: int| { let c = dpx10_component(b, start, *header, 1, j / 2); if j % 2 == 0 { (c & 0xff) as u8 } else { (c >> 8) as u8 } }));
            assert(blue@ =~= Seq::new((2 * (p + 1)) as nat, |j: int| { let c = dpx10_component(b, start, *header, 2, j / 2); if j % 2 == 0 { (c & 0xff) as u8 } else { (c >> 8) as u8 } }));
        }
        p = p + 1;
    }
    let mut frame: Vec<u8> = Vec::new();
    append_bytes(&mut frame, green.as_slice());
    append_bytes(&mut frame, blue.as_slice());
    append_bytes(&mut frame, red.as_slice());
    proof {
        assert(2 * w * header.height == 2 * (w * header.height)) by (nonlinear_arith);
        assert(red@ =~= dpx10_plane(b, start, *header, 0));
        assert(green@ =~= dpx10_plane(b, start, *header, 1));
        assert(blue@ =~= dpx10_plane(b, start, *header, 2));
    }
    Ok(frame)
}

/// Decodes the DPX image at `base`.
pub fn dpx_frame(bytes: &[u8], base: usize, header: &DpxHeader) -> (r: Result<Vec<u8>>)
    requires
        dpx_header_valid(*header),
    ensures
        match spec_dpx_frame(bytes@, base as int, *header) {
            Ok(f) => r is Ok && r->Ok_0@ == f,
            Err(e) => outcome(r) == Err::<Vec<u8>, Failure>(e),
        },
{
    let len = bytes.len();
    let data_start = match base.checked_add(header.data_offset) {
        Some(v) => v,
        None => return Err(invalid_data("DPX data offset overflow")),
    };
    let data_end = match data_start.checked_add(header.data_bytes) {
        Some(v) => v,
        None => return Err(invalid_data("DPX data range overflow")),
    };
    if data_end > len {
        return Err(unexpected_eof(data_end, len));
    }
    if header.bit_depth == 10 {
        dpx_frame_10(bytes, data_start, header)
    } else if header.bit_depth == 8 {
        dpx_frame_unpadded_rows(bytes, data_start, header, 3)
    } else {
        dpx_frame_unpadded_rows(bytes, data_start, header, 6)
    }
}

/// The frame-checksum listing of a DPX image or a sequence of them laid end to end.
pub fn dpx_image_frame_hashes(input: &[u8]) -> (r: Result<Vec<AudioFrameHash>>)
    ensures
        listing_outcome(r) == dpx_listing(input@, 0, None, Seq::empty()),
{
    let len = input.len();
    let mut frames: Vec<AudioFrameHash> = Vec::new();
    let mut shape: Option<(usize, usize, u8, u16)> = None;
    let mut pos: usize = 0;
    proof {
        assert(listing_view(frames@) =~= Seq::<FrameHashView>::empty());
    }
    while pos < len
        invariant
            len == input@.len(),
            pos <= len,
            dpx_listing(input@, 0, None, Seq::empty()) == dpx_listing(input@, pos as int, shape, listing_view(frames@)),
            frames@.len() <= pos,
        decreases len - pos,
    {
        let header = match dpx_header(input, pos) { Ok(h) => h, Err(e) => return Err(e) };
        match shape {
            Some(s) => {
                if s.0 != header.width || s.1 != header.height || s.2 != header.bit_depth || s.3 != header.packing {
                    return Err(unsupported("variable-dimension DPX sequences require exact compatibility backend"));
                }
            },
            None => {
                shape = Some((header.width, header.height, header.bit_depth, header.packing));
            },
        }
        let frame = match dpx_frame(input, pos, &header) { Ok(f) => f, Err(e) => return Err(e) };
        let index = frames.len() as u64;
        let ghost before = frames@;
        frames.push(frame_hash(index, frame.as_slice()));
        proof {
            assert(listing_view(frames@) =~= listing_view(before).push(frame_entry(before.len() as int, frame@)));
        }
        if header.data_offset > usize::MAX - header.data_bytes {
            return Err(invalid_data("DPX frame range overflow"));
        }
        let required = header.data_offset + header.data_bytes;
        let next = if header.file_size >= required && header.file_size <= len - pos { pos + header.file_size } else { pos + required };
        if next <= pos {
            return Err(invalid_data("DPX frame did not advance"));
        }
        pos = next;
    }
    if frames.len() == 0 {
        return Err(invalid_data("empty DPX input"));
    }
    Ok(frames)
}

/// Whether line `e` is the `k`-th frame: decode and presentation time `k`, one frame long.
pub open spec fn numbered(e: FrameHashView, k: int) -> bool {
    e.dts == k && e.pts == k && e.duration == 1
}

/// The images of a DPX sequence are numbered in order: the `k`-th line of the listing has
/// decode and presentation time `k` and lasts one frame.
pub proof fn law_dpx_frame_numbers(b: Seq<u8>, pos: int, shape: Option<(usize, usize, u8, u16)>, acc: Seq<FrameHashView>)
    requires
        forall|k: int| 0 <= k < acc.len() ==> numbered(#[trigger] acc[k], k),
    ensures
        dpx_listing(b, pos, shape, acc) matches Ok(l) ==> forall|k: int| 0 <= k < l.len() ==> numbered(#[trigger] l[k], k),
    decreases (if pos < b.len() { b.len() - pos } else { 0 }),
{
    if pos < b.len() {
        match spec_dpx_header(b, pos) {
            Err(_) => {},
            Ok(h) => {
                match spec_dpx_frame(b, pos, h) {
                    Err(_) => {},
                    Ok(f) => {
                        let required = h.data_offset + h.data_bytes;
                        let next = if h.file_size >= required && pos + h.file_size <= b.len() { pos + h.file_size } else { pos + required };
                        let acc2 = acc.push(frame_entry(acc.len() as int, f));
                        assert forall|k: int| 0 <= k < acc2.len() implies numbered(#[trigger] acc2[k], k) by {
                            if k < acc.len() {
                                assert(acc2[k] == acc[k]);
                            }
                        }
                        if required <= usize::MAX && next > pos {
                            law_dpx_frame_numbers(b, next, Some(dpx_shape(h)), acc2);
                        }
                    },
                }
            },
        }
    }
}

} // verus!
