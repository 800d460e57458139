use vstd::prelude::*;
use crate::bytes::{as_signed32, sat, sat_add, wide_mul, le16, le32, to_i32, u16_le, u32_le};
use crate::error::{eof, failure, invalid_data, outcome, unexpected_eof, unsupported, Failure, Result, RmpegError};
use crate::bytes::{append_bytes, zeros};
use crate::codec::digest::{frame_entry, frame_hash, listing_outcome, listing_view, FrameHashView};
use crate::codec::raster::{concat_rows, lemma_concat_rows_ext};
use crate::metadata::AudioFrameHash;

use crate::error::{with_number, with_signed};

verus! {

/// The fields of a BMP file and DIB header that decoding needs.
pub struct BmpHeader {
    pub width: usize,
    pub height: usize,
    pub top_down: bool,
    pub bits_per_pixel: u16,
    pub compression: u32,
    pub pixel_offset: usize,
    pub palette_offset: usize,
    pub palette_entry_size: usize,
    pub palette_entries: usize,
}

/// The smaller of `a` and `b`.
pub open spec fn min_int(a: int, b: int) -> int {
    if a <= b { a } else { b }
}

/// Whether `dib` is the size of a BITMAPINFOHEADER or of one of its later versions.
pub open spec fn is_info_dib(dib: int) -> bool {
    dib == 40 || dib == 52 || dib == 56 || dib == 64 || dib == 108 || dib == 124
}

/// Whether `bpp` is a palette-indexed depth.
pub open spec fn is_indexed_depth(bpp: int) -> bool {
    bpp == 1 || bpp == 4 || bpp == 8
}

/// The number of colours of an indexed depth.
pub open spec fn depth_colors(bpp: int) -> int {
    if bpp == 1 { 2 } else if bpp == 4 { 16 } else { 256 }
}

/// The rest of the header once the DIB variant has given dimensions, depth,
/// compression and the declared colour count.
pub open spec fn bmp_header_rest(
    b: Seq<u8>,
    dib: int,
    width: int,
    height: int,
    top_down: bool,
    bpp: int,
    compression: int,
    colors: int,
) -> core::result::Result<BmpHeader, Failure> {
    let len = b.len() as int;
    let po = u32_le(b, 10);
    let dib_end = 14 + dib;
    let pal = if compression == 3 && dib == 40 { dib_end + 12 } else { dib_end };
    let es: int = if dib == 12 { 3 } else { 4 };
    if width == 0 || height == 0 {
        Err(Failure::InvalidData)
    } else if po > len {
        Err(eof(po, len))
    } else if pal > usize::MAX {
        Err(Failure::InvalidData)
    } else if po < pal {
        Err(Failure::InvalidData)
    } else {
        let entries = if is_indexed_depth(bpp) {
            min_int(min_int(if colors == 0 { depth_colors(bpp) } else { colors }, (po - pal) / es), 256)
        } else {
            0
        };
        Ok(BmpHeader {
            width: width as usize,
            height: height as usize,
            top_down,
            bits_per_pixel: bpp as u16,
            compression: compression as u32,
            pixel_offset: po as usize,
            palette_offset: pal as usize,
            palette_entry_size: es as usize,
            palette_entries: entries as usize,
        })
    }
}

/// The header of the BMP file `b`: "BM", the file header, then a core (12-byte) or
/// info (40 bytes and up) DIB header.
pub open spec fn spec_bmp_header(b: Seq<u8>) -> core::result::Result<BmpHeader, Failure> {
    let len = b.len() as int;
    if len < 26 {
        Err(eof(26, len))
    } else if b[0] != 66 || b[1] != 77 {
        Err(Failure::InvalidData)
    } else {
        let dib = u32_le(b, 14);
        if 14 + dib > usize::MAX {
            Err(Failure::InvalidData)
        } else if 14 + dib > len {
            Err(eof(14 + dib, len))
        } else if dib == 12 {
            if u16_le(b, 22) != 1 {
                Err(Failure::InvalidData)
            } else {
                bmp_header_rest(b, dib, u16_le(b, 18), u16_le(b, 20), false, u16_le(b, 24), 0, 0)
            }
        } else if is_info_dib(dib) {
            let w = as_signed32(u32_le(b, 18));
            let h = as_signed32(u32_le(b, 22));
            if w <= 0 {
                Err(Failure::InvalidData)
            } else if u16_le(b, 26) != 1 {
                Err(Failure::InvalidData)
            } else if h == -0x8000_0000 {
                Err(Failure::InvalidData)
            } else {
                bmp_header_rest(b, dib, w, if h < 0 { -h } else { h }, h < 0, u16_le(b, 28), u32_le(b, 30), u32_le(b, 46))
            }
        } else {
            Err(Failure::InvalidData)
        }
    }
}

/// What every header that `bmp_header` accepts satisfies for an input of `len` bytes.
pub open spec fn bmp_wf(h: BmpHeader, len: int) -> bool {
    &&& 0 < h.width <= 0x8000_0000
    &&& 0 < h.height <= 0x8000_0000
    &&& (h.palette_entry_size == 3 || h.palette_entry_size == 4)
    &&& h.palette_entries <= 256
    &&& h.palette_offset + h.palette_entries * h.palette_entry_size <= h.pixel_offset <= len
}

fn bmp_header_rest_exec(
    bytes: &[u8],
    dib: u32,
    width: u32,
    height: u32,
    top_down: bool,
    bpp: u16,
    compression: u32,
    colors: u32,
) -> (r: Result<BmpHeader>)
    requires
        bytes@.len() >= 26,
        14 + dib <= bytes@.len(),
        dib == u32_le(bytes@, 14),
    ensures
        outcome(r) == bmp_header_rest(bytes@, dib as int, width as int, height as int, top_down, bpp as int, compression as int, colors as int),
        r matches Ok(h) ==> bmp_wf(h, bytes@.len() as int) || width > 0x8000_0000 || height > 0x8000_0000,
{
    let len = bytes.len();
    let po = le32(bytes, 10) as usize;
    let dib_end = 14 + dib as usize;
    if width == 0 || height == 0 {
        return Err(invalid_data("BMP dimensions must be nonzero"));
    }
    if po > len {
        return Err(unexpected_eof(po, len));
    }
    let pal = if compression == 3 && dib == 40 {
        if dib_end > usize::MAX - 12 {
            return Err(invalid_data("BMP bitfield range overflow"));
        }
        dib_end + 12
    } else {
        dib_end
    };
    if po < pal {
        return Err(invalid_data("BMP pixel data overlaps metadata"));
    }
    let es: usize = if dib == 12 { 3 } else { 4 };
    let entries: usize = if bpp == 1 || bpp == 4 || bpp == 8 {
        let default_entries: usize = if bpp == 1 { 2 } else if bpp == 4 { 16 } else { 256 };
        let requested = if colors == 0 { default_entries } else { colors as usize };
        let available = (po - pal) / es;
        let m = if requested <= available { requested } else { available };
        if m <= 256 { m } else { 256 }
    } else {
        0
    };
    proof {
        assert(entries * es <= po - pal) by (nonlinear_arith)
            requires
                entries <= (po - pal) as int / es as int,
                es == 3 || es == 4,
                po >= pal,
        ;
    }
    Ok(BmpHeader {
        width: width as usize,
        height: height as usize,
        top_down,
        bits_per_pixel: bpp,
        compression,
        pixel_offset: po,
        palette_offset: pal,
        palette_entry_size: es,
        palette_entries: entries,
    })
}

/// Reads and checks the header of the BMP file `bytes`.
pub fn bmp_header(bytes: &[u8]) -> (r: Result<BmpHeader>)
    ensures
        outcome(r) == spec_bmp_header(bytes@),
        r matches Ok(h) ==> bmp_wf(h, bytes@.len() as int),
{
    let len = bytes.len();
    if len < 26 {
        return Err(unexpected_eof(26, len));
    }
    if bytes[0] != 66 || bytes[1] != 77 {
        return Err(invalid_data("missing BMP signature"));
    }
    let dib = le32(bytes, 14);
    if dib as usize > usize::MAX - 14 {
        return Err(invalid_data("BMP DIB header range overflow"));
    }
    let dib_end = 14 + dib as usize;
    if dib_end > len {
        return Err(unexpected_eof(dib_end, len));
    }
    if dib == 12 {
        if le16(bytes, 22) != 1 {
            return Err(RmpegError::InvalidData(with_number("invalid BMP plane count ", le16(bytes, 22) as u64)));
        }
        let w = le16(bytes, 18) as u32;
        let h = le16(bytes, 20) as u32;
        bmp_header_rest_exec(bytes, dib, w, h, false, le16(bytes, 24), 0, 0)
    } else if dib == 40 || dib == 52 || dib == 56 || dib == 64 || dib == 108 || dib == 124 {
        let w = to_i32(le32(bytes, 18));
        let h = to_i32(le32(bytes, 22));
        if w <= 0 {
            return Err(RmpegError::InvalidData(with_signed("invalid BMP width ", w as i64)));
        }
        if le16(bytes, 26) != 1 {
            return Err(RmpegError::InvalidData(with_number("invalid BMP plane count ", le16(bytes, 26) as u64)));
        }
        if h == i32::MIN {
            return Err(invalid_data("invalid BMP height"));
        }
        let h_abs: u32 = if h < 0 { (-h) as u32 } else { h as u32 };
        bmp_header_rest_exec(bytes, dib, w as u32, h_abs, h < 0, le16(bytes, 28), le32(bytes, 30), le32(bytes, 46))
    } else {
        Err(RmpegError::InvalidData(with_number("unsupported BMP DIB header size ", dib as u64)))
    }
}

/// The 256-entry BGRA palette: each declared entry's first three bytes then 255,
/// zeros past the declared entries.
pub open spec fn bmp_palette_spec(b: Seq<u8>, h: BmpHeader) -> Seq<u8> {
    Seq::new(1024, |i: int| {
        let e = i / 4;
        let c = i % 4;
        if e < h.palette_entries {
            if c == 3 { 255u8 } else { b[h.palette_offset + e * h.palette_entry_size + c] }
        } else {
            0u8
        }
    })
}

/// The palette of a checked header (its entries always lie in the input).
fn bmp_palette(bytes: &[u8], h: &BmpHeader) -> (p: Vec<u8>)
    requires
        bmp_wf(*h, bytes@.len() as int),
    ensures
        p@ == bmp_palette_spec(bytes@, *h),
{
    let mut p = zeros(1024);
    let mut e: usize = 0;
    while e < h.palette_entries
        invariant
            bmp_wf(*h, bytes@.len() as int),
            e <= h.palette_entries,
            p@.len() == 1024,
            forall|i: int| 0 <= i < 1024 ==> #[trigger] p@[i] == (if i / 4 < e { bmp_palette_spec(bytes@, *h)[i] } else { 0u8 }),
        decreases h.palette_entries - e,
    {
        proof {
            assert(e * h.palette_entry_size + h.palette_entry_size <= h.palette_entries * h.palette_entry_size) by (nonlinear_arith)
                requires
                    e < h.palette_entries,
            ;
        }
        let src = h.palette_offset + e * h.palette_entry_size;
        let dst = e * 4;
        p.set(dst, bytes[src]);
        p.set(dst + 1, bytes[src + 1]);
        p.set(dst + 2, bytes[src + 2]);
        p.set(dst + 3, 255);
        e += 1;
    }
    assert(p@ =~= bmp_palette_spec(bytes@, *h));
    p
}

/// The padded length in bytes of a row of `width` pixels of `bpp` bits, if it fits.
pub open spec fn bmp_stride_spec(width: int, bpp: int) -> Option<int> {
    let bits = width * bpp;
    if bits > usize::MAX {
        None
    } else if ((bits + 31) / 32) * 4 > usize::MAX {
        None
    } else {
        Some(((bits + 31) / 32) * 4)
    }
}

fn bmp_stride(width: usize, bpp: u16) -> (r: Result<usize>)
    ensures
        match r {
            Ok(s) => bmp_stride_spec(width as int, bpp as int) == Some(s as int),
            Err(e) => bmp_stride_spec(width as int, bpp as int) is None && failure(e) == Failure::InvalidData,
        },
{
    let wide = wide_mul(width as u64, bpp as u64);
    if wide > usize::MAX as u128 {
        return Err(invalid_data("BMP row size overflow"));
    }
    let bits = wide as usize;
    let words = bits / 32 + if bits % 32 == 0 { 0 } else { 1 };
    assert(words == (bits + 31) / 32);
    if words > usize::MAX / 4 {
        return Err(invalid_data("BMP row stride overflow"));
    }
    Ok(words * 4)
}

/// The stored row of output row `y`: rows are stored bottom-up unless the height was negative.
pub open spec fn bmp_src_row(h: BmpHeader, y: int) -> int {
    if h.top_down { y } else { h.height - 1 - y }
}

/// Where stored row `bmp_src_row(h, y)` starts.
pub open spec fn bmp_row_start(h: BmpHeader, stride: int, y: int) -> int {
    h.pixel_offset + bmp_src_row(h, y) * stride
}

/// The failure met reading `need` bytes of each output row from row `y` on, in order.
pub open spec fn bmp_rows_fail(len: int, h: BmpHeader, stride: int, need: int, y: int) -> Option<Failure>
    decreases h.height - y,
{
    if y < 0 || y >= h.height {
        None
    } else {
        let rs = bmp_row_start(h, stride, y);
        if rs > usize::MAX {
            Some(Failure::InvalidData)
        } else if rs + need > len {
            Some(eof(sat(rs + need), len))
        } else {
            bmp_rows_fail(len, h, stride, need, y + 1)
        }
    }
}

/// Output row `y` starts at `rs`, where the checks have passed for rows before `y`.
fn bmp_check_row(len: usize, h: &BmpHeader, stride: usize, need: usize, y: usize) -> (r: Result<usize>)
    requires
        y < h.height,
        0 < h.height,
    ensures
        match r {
            Ok(rs) => rs == bmp_row_start(*h, stride as int, y as int) && rs + need <= len
                && bmp_rows_fail(len as int, *h, stride as int, need as int, y as int)
                    == bmp_rows_fail(len as int, *h, stride as int, need as int, y + 1),
            Err(e) => bmp_rows_fail(len as int, *h, stride as int, need as int, y as int) == Some(failure(e)),
        },
{
    let src_y: usize = if h.top_down { y } else { h.height - 1 - y };
    let off = wide_mul(src_y as u64, stride as u64);
    if off > (usize::MAX - h.pixel_offset) as u128 {
        return Err(invalid_data("BMP row offset overflow"));
    }
    let rs = h.pixel_offset + off as usize;
    if rs > len || len - rs < need {
        return Err(unexpected_eof(sat_add(rs, need), len));
    }
    Ok(rs)
}

/// The palette index of pixel `x` of output row `y` in an uncompressed indexed image.
pub open spec fn bmp_index_at(b: Seq<u8>, h: BmpHeader, stride: int, y: int, x: int) -> u8 {
    let r = bmp_row_start(h, stride, y);
    if h.bits_per_pixel == 1 {
        (b[r + x / 8] >> ((7 - x % 8) as u8)) & 1u8
    } else if h.bits_per_pixel == 4 {
        if x % 2 == 0 { b[r + x / 2] >> 4u8 } else { b[r + x / 2] & 15u8 }
    } else {
        b[r + x]
    }
}

/// The palette indexes of output row `y` of an uncompressed indexed image.
pub open spec fn bmp_index_row(b: Seq<u8>, h: BmpHeader, stride: int, y: int) -> Seq<u8> {
    Seq::new(h.width as nat, |x: int| bmp_index_at(b, h, stride, y, x))
}

/// The palette indexes of an uncompressed indexed image, top row first.
pub open spec fn spec_bmp_indexes(b: Seq<u8>, h: BmpHeader) -> core::result::Result<Seq<u8>, Failure> {
    match bmp_stride_spec(h.width as int, h.bits_per_pixel as int) {
        None => Err(Failure::InvalidData),
        Some(stride) => if h.width * h.height > usize::MAX {
            Err(Failure::InvalidData)
        } else {
            match bmp_rows_fail(b.len() as int, h, stride, stride, 0) {
                Some(e) => Err(e),
                None => Ok(concat_rows(h.height as int, |y: int| bmp_index_row(b, h, stride, y))),
            }
        },
    }
}

fn bmp_indexes(bytes: &[u8], h: &BmpHeader) -> (r: Result<Vec<u8>>)
    requires
        bmp_wf(*h, bytes@.len() as int),
        is_indexed_depth(h.bits_per_pixel as int),
    ensures
        match r {
            Ok(v) => spec_bmp_indexes(bytes@, *h) == Ok::<Seq<u8>, Failure>(v@),
            Err(e) => spec_bmp_indexes(bytes@, *h) == Err::<Seq<u8>, Failure>(failure(e)),
        },
{
    let stride = match bmp_stride(h.width, h.bits_per_pixel) {
        Ok(s) => s,
        Err(e) => return Err(e),
    };
    if wide_mul(h.width as u64, h.height as u64) > usize::MAX as u128 {
        return Err(invalid_data("BMP pixel count overflow"));
    }
    let len = bytes.len();
    let mut frame: Vec<u8> = Vec::new();
    let mut y: usize = 0;
    while y < h.height
        invariant
            bmp_wf(*h, bytes@.len() as int),
            is_indexed_depth(h.bits_per_pixel as int),
            bmp_stride_spec(h.width as int, h.bits_per_pixel as int) == Some(stride as int),
            y <= h.height,
            h.width * h.height <= usize::MAX,
            bmp_rows_fail(bytes@.len() as int, *h, stride as int, stride as int, 0)
                == bmp_rows_fail(bytes@.len() as int, *h, stride as int, stride as int, y as int),
            len == bytes@.len(),
            frame@ == concat_rows(y as int, |y2: int| bmp_index_row(bytes@, *h, stride as int, y2)),
        decreases h.height - y,
    {
        let rs = match bmp_check_row(bytes.len(), h, stride, stride, y) {
            Ok(rs) => rs,
            Err(e) => return Err(e),
        };
        let mut row: Vec<u8> = Vec::new();
        let mut x: usize = 0;
        while x < h.width
            invariant
                bmp_wf(*h, bytes@.len() as int),
                is_indexed_depth(h.bits_per_pixel as int),
                bmp_stride_spec(h.width as int, h.bits_per_pixel as int) == Some(stride as int),
                rs == bmp_row_start(*h, stride as int, y as int),
                rs + stride <= bytes@.len(),
                len == bytes@.len(),
                x <= h.width,
                row@ == Seq::new(x as nat, |k: int| bmp_index_at(bytes@, *h, stride as int, y as int, k)),
            decreases h.width - x,
        {
            let v: u8 = if h.bits_per_pixel == 1 {
                assert(x / 8 < stride) by (nonlinear_arith)
                    requires
                        x < h.width,
                        stride == ((h.width * 1 + 31) / 32) * 4,
                ;
                (bytes[rs + x / 8] >> ((7 - x % 8) as u8)) & 1
            } else if h.bits_per_pixel == 4 {
                assert(x / 2 < stride) by (nonlinear_arith)
                    requires
                        x < h.width,
                        stride == ((h.width * 4 + 31) / 32) * 4,
                ;
                if x % 2 == 0 { bytes[rs + x / 2] >> 4 } else { bytes[rs + x / 2] & 15 }
            } else {
                assert(x < stride) by (nonlinear_arith)
                    requires
                        x < h.width,
                        stride == ((h.width * 8 + 31) / 32) * 4,
                ;
                bytes[rs + x]
            };
            row.push(v);
            assert(row@ =~= Seq::new((x + 1) as nat, |k: int| bmp_index_at(bytes@, *h, stride as int, y as int, k)));
            x += 1;
        }
        assert(row@ =~= bmp_index_row(bytes@, *h, stride as int, y as int));
        append_bytes(&mut frame, &row);
        y += 1;
    }
    Ok(frame)
}

/// Output row `y` of a 16-, 24- or 32-bit image: the first `row_bytes` bytes of its stored row.
pub open spec fn bmp_packed_row(b: Seq<u8>, h: BmpHeader, stride: int, row_bytes: int, y: int) -> Seq<u8> {
    b.subrange(bmp_row_start(h, stride, y), bmp_row_start(h, stride, y) + row_bytes)
}

/// The pixel bytes of an image of `bpb` bytes per pixel, top row first.
pub open spec fn spec_bmp_packed(b: Seq<u8>, h: BmpHeader, bpb: int) -> core::result::Result<Seq<u8>, Failure> {
    match bmp_stride_spec(h.width as int, h.bits_per_pixel as int) {
        None => Err(Failure::InvalidData),
        Some(stride) => {
            let rb = h.width * bpb;
            if rb > usize::MAX {
                Err(Failure::InvalidData)
            } else if rb * h.height > usize::MAX {
                Err(Failure::InvalidData)
            } else {
                match bmp_rows_fail(b.len() as int, h, stride, rb, 0) {
                    Some(e) => Err(e),
                    None => Ok(concat_rows(h.height as int, |y: int| bmp_packed_row(b, h, stride, rb, y))),
                }
            }
        },
    }
}

fn bmp_packed(bytes: &[u8], h: &BmpHeader, bpb: usize) -> (r: Result<Vec<u8>>)
    requires
        bmp_wf(*h, bytes@.len() as int),
        bpb == 2 || bpb == 3 || bpb == 4,
    ensures
        match r {
            Ok(v) => spec_bmp_packed(bytes@, *h, bpb as int) == Ok::<Seq<u8>, Failure>(v@),
            Err(e) => spec_bmp_packed(bytes@, *h, bpb as int) == Err::<Seq<u8>, Failure>(failure(e)),
        },
{
    let stride = match bmp_stride(h.width, h.bits_per_pixel) {
        Ok(s) => s,
        Err(e) => return Err(e),
    };
    if h.width > usize::MAX / bpb {
        return Err(invalid_data("BMP row size overflow"));
    }
    let rb = h.width * bpb;
    if wide_mul(rb as u64, h.height as u64) > usize::MAX as u128 {
        return Err(invalid_data("BMP frame size overflow"));
    }
    let len = bytes.len();
    let mut frame: Vec<u8> = Vec::new();
    let mut y: usize = 0;
    while y < h.height
        invariant
            bmp_wf(*h, bytes@.len() as int),
            bmp_stride_spec(h.width as int, h.bits_per_pixel as int) == Some(stride as int),
            rb == h.width * bpb,
            rb * h.height <= usize::MAX,
            y <= h.height,
            len == bytes@.len(),
            bmp_rows_fail(bytes@.len() as int, *h, stride as int, rb as int, 0)
                == bmp_rows_fail(bytes@.len() as int, *h, stride as int, rb as int, y as int),
            frame@ == concat_rows(y as int, |y2: int| bmp_packed_row(bytes@, *h, stride as int, rb as int, y2)),
        decreases h.height - y,
    {
        let rs = match bmp_check_row(len, h, stride, rb, y) {
            Ok(rs) => rs,
            Err(e) => return Err(e),
        };
        append_bytes(&mut frame, &bytes[rs..rs + rb]);
        y += 1;
    }
    Ok(frame)
}

/// A 32-bit image's pixel bytes with every fourth byte (the unused one) set to zero.
pub open spec fn spec_bmp_bgr0(b: Seq<u8>, h: BmpHeader) -> core::result::Result<Seq<u8>, Failure> {
    match spec_bmp_packed(b, h, 4) {
        Ok(p) => Ok(Seq::new(p.len(), |i: int| if i % 4 == 3 { 0u8 } else { p[i] })),
        Err(e) => Err(e),
    }
}

fn bmp_bgr0(bytes: &[u8], h: &BmpHeader) -> (r: Result<Vec<u8>>)
    requires
        bmp_wf(*h, bytes@.len() as int),
    ensures
        match r {
            Ok(v) => spec_bmp_bgr0(bytes@, *h) == Ok::<Seq<u8>, Failure>(v@),
            Err(e) => spec_bmp_bgr0(bytes@, *h) == Err::<Seq<u8>, Failure>(failure(e)),
        },
{
    let mut frame = match bmp_packed(bytes, h, 4) {
        Ok(f) => f,
        Err(e) => return Err(e),
    };
    let ghost p = frame@;
    let mut i: usize = 0;
    while i < frame.len()
        invariant
            frame@.len() == p.len(),
            i <= p.len(),
            forall|k: int| 0 <= k < p.len() ==> #[trigger] frame@[k] == (if k < i && k % 4 == 3 { 0u8 } else { p[k] }),
        decreases p.len() - i,
    {
        if i % 4 == 3 {
            frame.set(i, 0);
        }
        i += 1;
    }
    assert(frame@ =~= Seq::new(p.len(), |k: int| if k % 4 == 3 { 0u8 } else { p[k] }));
    Ok(frame)
}

/// The palette index of the `p`-th pixel packed two to a byte in `v` (high nibble first).
pub open spec fn nibble(v: u8, p: int) -> u8 {
    if p % 2 == 0 { v >> 4u8 } else { v & 15u8 }
}

/// `frame`, `w` pixels per row, with the pixels `x .. x + count` of row `y` that lie
/// inside the row set to `pixel(0)`, `pixel(1)`, ...
pub open spec fn rle_fill(frame: Seq<u8>, w: int, x: int, y: int, count: int, pixel: spec_fn(int) -> u8) -> Seq<u8> {
    Seq::new(frame.len(), |i: int|
        if y * w + x <= i < y * w + min_int(x + count, w) { pixel(i - y * w - x) } else { frame[i ]})
}

/// The row an end-of-line command moves to.
pub open spec fn bmp_next_row(h: BmpHeader, y: int) -> int {
    if h.top_down { y + 1 } else { y - 1 }
}

/// Run-length decoding from the command at `pos`, the cursor at pixel `x` of row `y`:
/// a nonzero count repeats one value (or, with 4-bit pixels, a pair of nibbles); an
/// escape ends the row (0), the image (1), moves the cursor (2) or starts a literal
/// run padded to an even number of bytes. Decoding also ends when the commands or
/// the rows run out.
pub open spec fn bmp_rle(b: Seq<u8>, h: BmpHeader, four: bool, pos: int, x: int, y: int, frame: Seq<u8>) -> core::result::Result<Seq<u8>, Failure>
    decreases b.len() + 2 - pos,
{
    let len = b.len() as int;
    if !(0 <= pos && pos + 2 <= len && 0 <= y < h.height) {
        Ok(frame)
    } else {
        let count = b[pos] as int;
        let value = b[pos + 1];
        let w = h.width as int;
        if count != 0 {
            bmp_rle(b, h, four, pos + 2, x + count, y,
                rle_fill(frame, w, x, y, count, |p: int| if four { nibble(value, p) } else { value }))
        } else if value == 0 {
            bmp_rle(b, h, four, pos + 2, 0, bmp_next_row(h, y), frame)
        } else if value == 1 {
            Ok(frame)
        } else if value == 2 {
            if pos + 4 > len {
                Err(eof(sat(pos + 4), len))
            } else if x + b[pos + 2] > usize::MAX {
                Err(Failure::InvalidData)
            } else {
                bmp_rle(b, h, four, pos + 4, x + b[pos + 2], if h.top_down { y + b[pos + 3] } else { y - b[pos + 3] }, frame)
            }
        } else {
            let n = value as int;
            let nb = if four { (n + 1) / 2 } else { n };
            if pos + 2 + nb > len {
                Err(eof(sat(pos + 2 + nb), len))
            } else {
                bmp_rle(b, h, four, pos + 2 + nb + nb % 2, x + n, y,
                    rle_fill(frame, w, x, y, n, |p: int| if four { nibble(b[pos + 2 + p / 2], p) } else { b[pos + 2 + p] }))
            }
        }
    }
}

/// The palette indexes of a run-length encoded image (4-bit pixels when `four`).
pub open spec fn spec_bmp_rle(b: Seq<u8>, h: BmpHeader, four: bool) -> core::result::Result<Seq<u8>, Failure> {
    if h.width * h.height > usize::MAX {
        Err(Failure::InvalidData)
    } else {
        bmp_rle(b, h, four, h.pixel_offset as int, 0, if h.top_down { 0 } else { h.height - 1 },
            Seq::new((h.width * h.height) as nat, |i: int| 0u8))
    }
}

/// Writes a run of `count` copies of `value` (nibble pairs when `four`) at pixel `x` of row `y`.
fn rle_put_run(frame: &mut Vec<u8>, w: usize, hgt: usize, x: u128, y: usize, count: usize, value: u8, four: bool)
    requires
        old(frame)@.len() == w * hgt,
        w * hgt <= usize::MAX,
        x <= 0xffff_ffff_ffff_ffff_ffff,
        y < hgt,
    ensures
        final(frame)@ == rle_fill(old(frame)@, w as int, x as int, y as int, count as int,
            |p: int| if four { nibble(value, p) } else { value }),
{
    proof {
        assert(y * w + w <= w * hgt) by (nonlinear_arith)
            requires
                y < hgt,
        ;
    }
    let base = y * w;
    let mut p: usize = 0;
    while p < count
        invariant
            w * hgt <= usize::MAX,
            x <= 0xffff_ffff_ffff_ffff_ffff,
            frame@.len() == old(frame)@.len(),
            old(frame)@.len() == w * hgt,
            base == y * w,
            base + w <= w * hgt,
            p <= count,
            frame@ == rle_fill(old(frame)@, w as int, x as int, y as int, p as int,
                |q: int| if four { nibble(value, q) } else { value }),
        decreases count - p,
    {
        if x + (p as u128) < w as u128 {
            let v = if four { if p % 2 == 0 { value >> 4 } else { value & 15 } } else { value };
            frame.set(base + x as usize + p, v);
        }
        p += 1;
        assert(frame@ =~= rle_fill(old(frame)@, w as int, x as int, y as int, p as int,
            |q: int| if four { nibble(value, q) } else { value }));
    }
}

/// Writes a literal run of `n` pixels read from `bytes` at `start` (nibbles when `four`).
fn rle_put_literal(frame: &mut Vec<u8>, w: usize, hgt: usize, x: u128, y: usize, n: usize, bytes: &[u8], start: usize, four: bool)
    requires
        old(frame)@.len() == w * hgt,
        w * hgt <= usize::MAX,
        x <= 0xffff_ffff_ffff_ffff_ffff,
        y < hgt,
        four ==> start + (n + 1) / 2 <= bytes@.len(),
        !four ==> start + n <= bytes@.len(),
    ensures
        final(frame)@ == rle_fill(old(frame)@, w as int, x as int, y as int, n as int,
            |p: int| if four { nibble(bytes@[start + p / 2], p) } else { bytes@[start + p] }),
{
    proof {
        assert(y * w + w <= w * hgt) by (nonlinear_arith)
            requires
                y < hgt,
        ;
    }
    let base = y * w;
    let blen = bytes.len();
    let mut p: usize = 0;
    while p < n
        invariant
            blen == bytes@.len(),
            w * hgt <= usize::MAX,
            x <= 0xffff_ffff_ffff_ffff_ffff,
            frame@.len() == old(frame)@.len(),
            old(frame)@.len() == w * hgt,
            base == y * w,
            base + w <= w * hgt,
            p <= n,
            four ==> start + (n + 1) / 2 <= bytes@.len(),
            !four ==> start + n <= bytes@.len(),
            frame@ == rle_fill(old(frame)@, w as int, x as int, y as int, p as int,
                |q: int| if four { nibble(bytes@[start + q / 2], q) } else { bytes@[start + q] }),
        decreases n - p,
    {
        if x + (p as u128) < w as u128 {
            let v = if four {
                let byte = bytes[start + p / 2];
                if p % 2 == 0 { byte >> 4 } else { byte & 15 }
            } else {
                bytes[start + p]
            };
            frame.set(base + x as usize + p, v);
        }
        p += 1;
        assert(frame@ =~= rle_fill(old(frame)@, w as int, x as int, y as int, p as int,
            |q: int| if four { nibble(bytes@[start + q / 2], q) } else { bytes@[start + q] }));
    }
}

fn bmp_rle_indexes(bytes: &[u8], h: &BmpHeader, four: bool) -> (r: Result<Vec<u8>>)
    requires
        bmp_wf(*h, bytes@.len() as int),
    ensures
        match r {
            Ok(v) => spec_bmp_rle(bytes@, *h, four) == Ok::<Seq<u8>, Failure>(v@),
            Err(e) => spec_bmp_rle(bytes@, *h, four) == Err::<Seq<u8>, Failure>(failure(e)),
        },
{
    if wide_mul(h.width as u64, h.height as u64) > usize::MAX as u128 {
        return Err(invalid_data("BMP pixel count overflow"));
    }
    let w = h.width;
    let hgt = h.height;
    let len = bytes.len();
    let mut frame = zeros(w * hgt);
    let mut pos: u128 = h.pixel_offset as u128;
    let mut x: u128 = 0;
    let mut y: i64 = if h.top_down { 0 } else { (hgt - 1) as i64 };
    while pos + 2 <= len as u128 && y >= 0 && (y as u64) < hgt as u64
        invariant
            bmp_wf(*h, bytes@.len() as int),
            w == h.width,
            hgt == h.height,
            len == bytes@.len(),
            w * hgt <= usize::MAX,
            frame@.len() == w * hgt,
            pos <= len + 1,
            x <= 128 * pos,
            -256 <= y <= hgt + 256,
            spec_bmp_rle(bytes@, *h, four) == bmp_rle(bytes@, *h, four, pos as int, x as int, y as int, frame@),
        decreases len + 2 - pos,
    {
        let p = pos as usize;
        let count = bytes[p];
        let value = bytes[p + 1];
        let yu = y as usize;
        if count != 0 {
            rle_put_run(&mut frame, w, hgt, x, yu, count as usize, value, four);
            pos = pos + 2;
            x = x + count as u128;
        } else if value == 0 {
            pos = pos + 2;
            x = 0;
            y = if h.top_down { y + 1 } else { y - 1 };
        } else if value == 1 {
            return Ok(frame);
        } else if value == 2 {
            if pos + 4 > len as u128 {
                return Err(unexpected_eof(sat_add(p, 4), len));
            }
            let dx = bytes[p + 2];
            let dy = bytes[p + 3] as i64;
            if x + dx as u128 > usize::MAX as u128 {
                return Err(invalid_data("BMP RLE x overflow"));
            }
            x = x + dx as u128;
            y = if h.top_down { y + dy } else { y - dy };
            pos = pos + 4;
        } else {
            let n = value as usize;
            let nb: usize = if four { (n + 1) / 2 } else { n };
            if pos + 2 + nb as u128 > len as u128 {
                return Err(unexpected_eof(sat_add(p + 2, nb), len));
            }
            rle_put_literal(&mut frame, w, hgt, x, yu, n, bytes, p + 2, four);
            pos = pos + 2 + nb as u128 + (nb % 2) as u128;
            x = x + n as u128;
        }
    }
    Ok(frame)
}

/// Palette indexes followed by the palette.
pub open spec fn with_bmp_palette(r: core::result::Result<Seq<u8>, Failure>, b: Seq<u8>, h: BmpHeader) -> core::result::Result<Seq<u8>, Failure> {
    match r {
        Ok(ix) => Ok(ix + bmp_palette_spec(b, h)),
        Err(e) => Err(e),
    }
}

/// The decoded frame of one BMP file: 8-bit palette indexes then the palette for
/// indexed images, the stored pixel bytes top row first otherwise.
pub open spec fn spec_bmp_frame(b: Seq<u8>) -> core::result::Result<Seq<u8>, Failure> {
    match spec_bmp_header(b) {
        Err(e) => Err(e),
        Ok(h) => {
            let bpp = h.bits_per_pixel as int;
            let c = h.compression as int;
            if is_indexed_depth(bpp) && c == 0 {
                with_bmp_palette(spec_bmp_indexes(b, h), b, h)
            } else if bpp == 4 && c == 2 {
                with_bmp_palette(spec_bmp_rle(b, h, true), b, h)
            } else if bpp == 8 && c == 1 {
                with_bmp_palette(spec_bmp_rle(b, h, false), b, h)
            } else if bpp == 16 && (c == 0 || c == 3) {
                spec_bmp_packed(b, h, 2)
            } else if bpp == 24 && c == 0 {
                spec_bmp_packed(b, h, 3)
            } else if bpp == 32 && (c == 0 || c == 3) {
                spec_bmp_bgr0(b, h)
            } else {
                Err(Failure::Unsupported)
            }
        },
    }
}

/// Decodes one BMP file.
pub fn bmp_frame(bytes: &[u8]) -> (r: Result<Vec<u8>>)
    ensures
        match r {
            Ok(v) => spec_bmp_frame(bytes@) == Ok::<Seq<u8>, Failure>(v@),
            Err(e) => spec_bmp_frame(bytes@) == Err::<Seq<u8>, Failure>(failure(e)),
        },
{
    let h = match bmp_header(bytes) {
        Ok(h) => h,
        Err(e) => return Err(e),
    };
    let bpp = h.bits_per_pixel;
    let c = h.compression;
    let indexes = if (bpp == 1 || bpp == 4 || bpp == 8) && c == 0 {
        bmp_indexes(bytes, &h)
    } else if bpp == 4 && c == 2 {
        bmp_rle_indexes(bytes, &h, true)
    } else if bpp == 8 && c == 1 {
        bmp_rle_indexes(bytes, &h, false)
    } else if bpp == 16 && (c == 0 || c == 3) {
        return bmp_packed(bytes, &h, 2);
    } else if bpp == 24 && c == 0 {
        return bmp_packed(bytes, &h, 3);
    } else if bpp == 32 && (c == 0 || c == 3) {
        return bmp_bgr0(bytes, &h);
    } else {
        return Err(unsupported("unsupported BMP bit depth with this compression"));
    };
    let mut frame = match indexes {
        Ok(v) => v,
        Err(e) => return Err(e),
    };
    let palette = bmp_palette(bytes, &h);
    append_bytes(&mut frame, &palette);
    Ok(frame)
}

/// The listing of BMP files laid end to end, from the one at `pos`, after the lines `done`.
/// A file whose declared size does not fit ends the input when it is the first one.
pub open spec fn bmp_listing(b: Seq<u8>, pos: int, done: Seq<FrameHashView>) -> core::result::Result<Seq<FrameHashView>, Failure>
    decreases b.len() - pos,
{
    let len = b.len() as int;
    if pos < 0 || pos >= len {
        if done.len() == 0 { Err(Failure::InvalidData) } else { Ok(done) }
    } else if pos + 6 > len {
        Err(eof(sat(pos + 6), len))
    } else if pos + 14 > len {
        Err(eof(sat(pos + 14), len))
    } else {
        let fs = u32_le(b, pos + 2);
        let po = u32_le(b, pos + 10);
        let end = if fs >= po && pos + fs <= len { pos + fs } else if pos == 0 { len } else { -1 };
        if end < 0 {
            Err(Failure::InvalidData)
        } else {
            match spec_bmp_frame(b.subrange(pos, end)) {
                Err(e) => Err(e),
                Ok(f) => if end <= pos {
                    Err(Failure::InvalidData)
                } else {
                    bmp_listing(b, end, done.push(frame_entry(done.len() as int, f)))
                },
            }
        }
    }
}

/// The frame checksums of one BMP file, or of several laid end to end.
pub fn bmp_image_frame_hashes(input: &[u8]) -> (r: Result<Vec<AudioFrameHash>>)
    ensures
        listing_outcome(r) == bmp_listing(input@, 0, Seq::empty()),
{
    let len = input.len();
    let mut frames: Vec<AudioFrameHash> = Vec::new();
    let mut pos: usize = 0;
    assert(listing_view(frames@) =~= Seq::<FrameHashView>::empty());
    while pos < len
        invariant
            len == input@.len(),
            pos <= len,
            frames@.len() <= pos,
            bmp_listing(input@, 0, Seq::empty()) == bmp_listing(input@, pos as int, listing_view(frames@)),
        decreases len - pos,
    {
        if len - pos < 6 {
            return Err(unexpected_eof(sat_add(pos, 6), len));
        }
        if len - pos < 14 {
            return Err(unexpected_eof(sat_add(pos, 14), len));
        }
        let fs = le32(input, pos + 2) as usize;
        let po = le32(input, pos + 10) as usize;
        let end = if fs >= po && fs <= len - pos {
            pos + fs
        } else if pos == 0 {
            len
        } else {
            return Err(invalid_data("truncated concatenated BMP frame"));
        };
        let frame = match bmp_frame(&input[pos..end]) {
            Ok(f) => f,
            Err(e) => return Err(e),
        };
        if end <= pos {
            return Err(invalid_data("BMP frame did not advance"));
        }
        let ghost before = frames@;
        frames.push(frame_hash(frames.len() as u64, &frame));
        assert(listing_view(frames@) =~= listing_view(before).push(frame_entry(before.len() as int, frame@)));
        pos = end;
    }
    if frames.len() == 0 {
        return Err(invalid_data("empty BMP input"));
    }
    Ok(frames)
}


/// Rows of a 16-, 24- or 32-bit image come out in picture order: a top-down image (one
/// whose header gave a negative height) lists stored row `y` as output row `y`, a
/// bottom-up one lists the last stored row first; each output row is the first
/// `width * bytes-per-pixel` bytes of its stored, padded row.
pub proof fn law_bmp_row_order(b: Seq<u8>, h: BmpHeader, bpb: int)
    ensures
        spec_bmp_packed(b, h, bpb) matches Ok(v) ==> {
            let stride = bmp_stride_spec(h.width as int, h.bits_per_pixel as int)->0;
            let rb = h.width * bpb;
            let po = h.pixel_offset as int;
            &&& h.top_down ==> v == concat_rows(h.height as int,
                |y: int| b.subrange(po + y * stride, po + y * stride + rb))
            &&& !h.top_down ==> v == concat_rows(h.height as int,
                |y: int| b.subrange(po + (h.height - 1 - y) * stride, po + (h.height - 1 - y) * stride + rb))
        },
{
    if let Ok(v) = spec_bmp_packed(b, h, bpb) {
        let stride = bmp_stride_spec(h.width as int, h.bits_per_pixel as int)->0;
        let rb = h.width * bpb;
        let po = h.pixel_offset as int;
        let f = |y: int| bmp_packed_row(b, h, stride, rb, y);
        assert(v == concat_rows(h.height as int, f));
        if h.top_down {
            let g = |y: int| b.subrange(po + y * stride, po + y * stride + rb);
            assert forall|y: int| 0 <= y < h.height implies #[trigger] f(y) == g(y) by {}
            lemma_concat_rows_ext(h.height as int, f, g);
        } else {
            let g = |y: int| b.subrange(po + (h.height - 1 - y) * stride, po + (h.height - 1 - y) * stride + rb);
            assert forall|y: int| 0 <= y < h.height implies #[trigger] f(y) == g(y) by {}
            lemma_concat_rows_ext(h.height as int, f, g);
        }
    }
}

} // verus!
