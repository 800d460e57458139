use vstd::prelude::*;
use crate::bytes::{sat, sat_add, wide_mul, has_tag, le16, tag_at, u16_le};
use crate::error::{eof, failure, invalid_data, outcome, unexpected_eof, unsupported, Failure, Result, RmpegError};
use crate::bytes::{append_bytes, zeros};
use crate::codec::digest::{listing_outcome, single_frame_listing, single_listing};
use crate::codec::raster::{concat_rows, lemma_concat_chunks, lemma_concat_rows_ext};
use crate::metadata::AudioFrameHash;

use crate::error::{decimal_chars, with_number};

verus! {

/// The fields of a TGA header that decoding needs.
pub struct TgaHeader {
    pub color_map_first: usize,
    pub color_map_len: usize,
    pub color_map_depth: u8,
    pub image_type: u8,
    pub width: usize,
    pub height: usize,
    pub pixel_depth: u8,
    pub descriptor: u8,
    pub color_map_offset: usize,
    pub pixel_offset: usize,
    pub image_end: usize,
}

/// Bytes per stored pixel of `bits` bits.
pub open spec fn tga_bpp(bits: int) -> int {
    (bits + 7) / 8
}

/// Whether the image type and depths are ones the decoder handles.
pub open spec fn tga_kind_ok(image_type: int, cmt: int, cml: int, pd: int, cmd: int) -> core::result::Result<(), Failure> {
    if image_type == 1 || image_type == 9 {
        if cmt != 1 || cml == 0 {
            Err(Failure::InvalidData)
        } else if !(pd == 8 || pd == 15 || pd == 16) {
            Err(Failure::InvalidData)
        } else if !(cmd == 15 || cmd == 16 || cmd == 24 || cmd == 32) {
            Err(Failure::InvalidData)
        } else {
            Ok(())
        }
    } else if image_type == 2 || image_type == 10 {
        if cmt != 0 || cml != 0 {
            Err(Failure::InvalidData)
        } else if !(pd == 15 || pd == 16 || pd == 24 || pd == 32) {
            Err(Failure::InvalidData)
        } else {
            Ok(())
        }
    } else if image_type == 3 || image_type == 11 {
        if cmt != 0 || cml != 0 {
            Err(Failure::InvalidData)
        } else if !(pd == 8 || pd == 16) {
            Err(Failure::InvalidData)
        } else {
            Ok(())
        }
    } else {
        Err(Failure::Unsupported)
    }
}

/// The header of the TGA 2.0 file `b` (which must end with the TGA 2.0 footer).
pub open spec fn spec_tga_header(b: Seq<u8>) -> core::result::Result<TgaHeader, Failure> {
    let len = b.len() as int;
    if len < 44 {
        Err(eof(44, len))
    } else if b.subrange(len - 18, len) != seq![0x54u8, 0x52, 0x55, 0x45, 0x56, 0x49, 0x53, 0x49, 0x4f, 0x4e, 0x2d, 0x58, 0x46, 0x49, 0x4c, 0x45, 0x2e, 0x00] {
        Err(Failure::InvalidData)
    } else {
        let w = u16_le(b, 12);
        let h = u16_le(b, 14);
        let desc = b[17];
        let image_end = len - 26;
        let cmo = 18 + b[0];
        let po = cmo + u16_le(b, 5) * tga_bpp(b[7] as int);
        if w == 0 || h == 0 {
            Err(Failure::InvalidData)
        } else if desc & 0xc0u8 != 0 {
            Err(Failure::InvalidData)
        } else if po > image_end {
            Err(eof(po, image_end))
        } else {
            match tga_kind_ok(b[2] as int, b[1] as int, u16_le(b, 5), b[16] as int, b[7] as int) {
                Err(e) => Err(e),
                Ok(_) => Ok(TgaHeader {
                    color_map_first: u16_le(b, 3) as usize,
                    color_map_len: u16_le(b, 5) as usize,
                    color_map_depth: b[7],
                    image_type: b[2],
                    width: w as usize,
                    height: h as usize,
                    pixel_depth: b[16],
                    descriptor: desc,
                    color_map_offset: cmo as usize,
                    pixel_offset: po as usize,
                    image_end: image_end as usize,
                }),
            }
        }
    }
}

/// What every header that `tga_header` accepts satisfies for an input of `len` bytes.
pub open spec fn tga_wf(h: TgaHeader, len: int) -> bool {
    &&& 0 < h.width <= 0xffff
    &&& 0 < h.height <= 0xffff
    &&& h.color_map_first <= 0xffff
    &&& h.color_map_len <= 0xffff
    &&& h.image_end == len - 26
    &&& h.color_map_offset + h.color_map_len * tga_bpp(h.color_map_depth as int) == h.pixel_offset
    &&& h.pixel_offset <= h.image_end
    &&& tga_kind_ok(h.image_type as int, if h.image_type == 1 || h.image_type == 9 { 1 } else { 0 },
            h.color_map_len as int, h.pixel_depth as int, h.color_map_depth as int) == Ok::<(), Failure>(())
}

/// Reads and checks the header of the TGA file `bytes`.
pub fn tga_header(bytes: &[u8]) -> (r: Result<TgaHeader>)
    ensures
        outcome(r) == spec_tga_header(bytes@),
        r matches Ok(h) ==> tga_wf(h, bytes@.len() as int),
        r matches Err(RmpegError::Unsupported(m)) ==> m@ == "unsupported TGA image type "@ + decimal_chars(bytes@[2] as nat),
{
    let len = bytes.len();
    if len < 44 {
        return Err(unexpected_eof(44, len));
    }
    let sig = &[0x54u8, 0x52, 0x55, 0x45, 0x56, 0x49, 0x53, 0x49, 0x4f, 0x4e, 0x2d, 0x58, 0x46, 0x49, 0x4c, 0x45, 0x2e, 0x00];
    let sig_ok = tag_at(bytes, len - 18, sig);
    proof {
        reveal_with_fuel(has_tag, 1);
    }
    if !sig_ok {
        return Err(invalid_data("missing TGA 2.0 footer signature"));
    }
    let w = le16(bytes, 12) as usize;
    let h = le16(bytes, 14) as usize;
    let desc = bytes[17];
    if w == 0 || h == 0 {
        return Err(invalid_data("TGA dimensions must be nonzero"));
    }
    if desc & 0xc0 != 0 {
        return Err(invalid_data("unsupported TGA descriptor"));
    }
    let image_end = len - 26;
    let cmo = 18 + bytes[0] as usize;
    let cml = le16(bytes, 5) as usize;
    let cmd = bytes[7];
    let bpe = (cmd as usize + 7) / 8;
    assert(cml * bpe <= 65535 * 32) by (nonlinear_arith)
        requires
            cml <= 65535,
            bpe <= 32,
    ;
    let cmb = cml * bpe;
    let po = cmo + cmb;
    if po > image_end {
        return Err(unexpected_eof(po, image_end));
    }
    let it = bytes[2];
    let cmt = bytes[1];
    let pd = bytes[16];
    if it == 1 || it == 9 {
        if cmt != 1 || cml == 0 {
            return Err(invalid_data("color-mapped TGA requires a color map"));
        }
        if !(pd == 8 || pd == 15 || pd == 16) {
            return Err(invalid_data("unsupported TGA index depth"));
        }
        if !(cmd == 15 || cmd == 16 || cmd == 24 || cmd == 32) {
            return Err(RmpegError::InvalidData(with_number("unsupported TGA color map depth ", cmd as u64)));
        }
    } else if it == 2 || it == 10 {
        if cmt != 0 || cml != 0 {
            return Err(invalid_data("true-color TGA must not declare a color map"));
        }
        if !(pd == 15 || pd == 16 || pd == 24 || pd == 32) {
            return Err(RmpegError::InvalidData(with_number("unsupported TGA pixel depth ", pd as u64)));
        }
    } else if it == 3 || it == 11 {
        if cmt != 0 || cml != 0 {
            return Err(invalid_data("grayscale TGA must not declare a color map"));
        }
        if !(pd == 8 || pd == 16) {
            return Err(invalid_data("unsupported TGA grayscale depth"));
        }
    } else {
        return Err(RmpegError::Unsupported(with_number("unsupported TGA image type ", it as u64)));
    }
    Ok(TgaHeader {
        color_map_first: le16(bytes, 3) as usize,
        color_map_len: cml,
        color_map_depth: cmd,
        image_type: it,
        width: w,
        height: h,
        pixel_depth: pd,
        descriptor: desc,
        color_map_offset: cmo,
        pixel_offset: po,
        image_end,
    })
}

/// `s` repeated `n` times.
pub open spec fn repeat_bytes(s: Seq<u8>, n: int) -> Seq<u8>
    decreases n,
{
    if n <= 0 { Seq::empty() } else { repeat_bytes(s, n - 1) + s }
}

/// The stored pixels decoded from run-length packets from `pos` on, after `acc`, until
/// at least `total` bytes are decoded: a packet's low seven bits plus one count its
/// pixels; with the high bit set one stored pixel is repeated, else they follow literally.
pub open spec fn tga_rle_stream(b: Seq<u8>, h: TgaHeader, bpp: nat, total: int, pos: int, acc: Seq<u8>) -> core::result::Result<Seq<u8>, Failure>
    decreases h.image_end - pos,
{
    let end = h.image_end as int;
    if acc.len() >= total {
        Ok(acc)
    } else if pos < 0 || pos >= end {
        Err(eof(pos + 1, end))
    } else {
        let packet = b[pos];
        let count = (packet & 0x7fu8) as int + 1;
        if packet & 0x80u8 != 0 {
            if pos + 1 + bpp > end {
                Err(eof(pos + 1 + bpp, end))
            } else {
                tga_rle_stream(b, h, bpp, total, pos + 1 + bpp, acc + repeat_bytes(b.subrange(pos + 1, pos + 1 + bpp), count))
            }
        } else {
            proof {
                assert(count * bpp >= 0) by (nonlinear_arith)
                    requires
                        count >= 1,
                ;
            }
            if pos + 1 + count * bpp > end {
                Err(eof(sat(pos + 1 + count * bpp), end))
            } else {
                tga_rle_stream(b, h, bpp, total, pos + 1 + count * bpp, acc + b.subrange(pos + 1, pos + 1 + count * bpp))
            }
        }
    }
}

/// The stored pixels of the image, in storage order: `bpp` bytes each.
pub open spec fn tga_stream(b: Seq<u8>, h: TgaHeader, bpp: int) -> core::result::Result<Seq<u8>, Failure> {
    let total = h.width * h.height * bpp;
    if total > usize::MAX {
        Err(Failure::InvalidData)
    } else if 1 <= h.image_type <= 3 {
        if h.pixel_offset + total > usize::MAX {
            Err(Failure::InvalidData)
        } else if h.pixel_offset + total > h.image_end {
            Err(eof(h.pixel_offset + total, h.image_end as int))
        } else {
            Ok(b.subrange(h.pixel_offset as int, h.pixel_offset + total))
        }
    } else {
        tga_rle_stream(b, h, bpp as nat, total, h.pixel_offset as int, Seq::empty())
    }
}

/// The stored pixel shown at output pixel `x` of output row `y`: rows are stored
/// bottom-up unless descriptor bit 5 is set, columns right-to-left when bit 4 is.
pub open spec fn tga_storage_index(h: TgaHeader, y: int, x: int) -> int {
    let sx = if h.descriptor & 0x10u8 != 0 { h.width - 1 - x } else { x };
    let sy = if h.descriptor & 0x20u8 != 0 { y } else { h.height - 1 - y };
    sy * h.width + sx
}

/// Output row `y` assembled from the stored pixels `s`.
pub open spec fn tga_out_row(s: Seq<u8>, h: TgaHeader, bpp: int, y: int) -> Seq<u8> {
    concat_rows(h.width as int, |x: int| s.subrange(tga_storage_index(h, y, x) * bpp, tga_storage_index(h, y, x) * bpp + bpp))
}

/// The image's pixels in output order, top row first, `bpp` bytes per pixel.
pub open spec fn spec_tga_pixels(b: Seq<u8>, h: TgaHeader, bpp: int) -> core::result::Result<Seq<u8>, Failure> {
    match tga_stream(b, h, bpp) {
        Err(e) => Err(e),
        Ok(s) => Ok(concat_rows(h.height as int, |y: int| tga_out_row(s, h, bpp, y))),
    }
}

fn tga_rle_decode(bytes: &[u8], h: &TgaHeader, bpp: usize, total: usize) -> (r: Result<Vec<u8>>)
    requires
        tga_wf(*h, bytes@.len() as int),
        1 <= bpp <= 4,
    ensures
        match r {
            Ok(v) => tga_rle_stream(bytes@, *h, bpp as nat, total as int, h.pixel_offset as int, Seq::empty()) == Ok::<Seq<u8>, Failure>(v@)
                && v@.len() >= total,
            Err(e) => tga_rle_stream(bytes@, *h, bpp as nat, total as int, h.pixel_offset as int, Seq::empty()) == Err::<Seq<u8>, Failure>(failure(e)),
        },
{
    let end = h.image_end;
    let len = bytes.len();
    let mut s: Vec<u8> = Vec::new();
    let mut pos = h.pixel_offset;
    while s.len() < total
        invariant
            len == bytes@.len(),
            tga_wf(*h, bytes@.len() as int),
            1 <= bpp <= 4,
            end == h.image_end,
            pos <= end,
            tga_rle_stream(bytes@, *h, bpp as nat, total as int, h.pixel_offset as int, Seq::empty())
                == tga_rle_stream(bytes@, *h, bpp as nat, total as int, pos as int, s@),
        decreases end - pos,
    {
        if pos >= end {
            return Err(unexpected_eof(pos + 1, end));
        }
        let packet = bytes[pos];
        let count = (packet & 0x7f) as usize + 1;
        if packet & 0x80 != 0 {
            if end - pos - 1 < bpp {
                return Err(unexpected_eof(pos + 1 + bpp, end));
            }
            let px = &bytes[pos + 1..pos + 1 + bpp];
            let ghost before = s@;
            let mut k: usize = 0;
            while k < count
                invariant
                    k <= count,
                    s@ == before + repeat_bytes(px@, k as int),
                decreases count - k,
            {
                append_bytes(&mut s, px);
                k += 1;
            }
            pos = pos + 1 + bpp;
        } else {
            assert(packet & 0x7f <= 127) by (bit_vector);
            assert(count * bpp <= 512) by (nonlinear_arith)
                requires
                    count <= 128,
                    bpp <= 4,
            ;
            let n = count * bpp;
            if end - pos - 1 < n {
                return Err(unexpected_eof(sat_add(pos + 1, n), end));
            }
            append_bytes(&mut s, &bytes[pos + 1..pos + 1 + n]);
            pos = pos + 1 + n;
        }
    }
    Ok(s)
}

/// Output pixels from the stored pixels `s`.
fn tga_place(s: &Vec<u8>, h: &TgaHeader, bpp: usize) -> (v: Vec<u8>)
    requires
        0 < h.width <= 0xffff,
        0 < h.height <= 0xffff,
        1 <= bpp <= 4,
        s@.len() >= h.width * h.height * bpp,
    ensures
        v@ == concat_rows(h.height as int, |y: int| tga_out_row(s@, *h, bpp as int, y)),
{
    let w = h.width;
    let hgt = h.height;
    let slen = s.len();
    let mut v: Vec<u8> = Vec::new();
    let mut y: usize = 0;
    while y < hgt
        invariant
            slen == s@.len(),
            w == h.width,
            hgt == h.height,
            0 < h.width <= 0xffff,
            0 < h.height <= 0xffff,
            1 <= bpp <= 4,
            s@.len() >= h.width * h.height * bpp,
            y <= hgt,
            v@ == concat_rows(y as int, |y2: int| tga_out_row(s@, *h, bpp as int, y2)),
        decreases hgt - y,
    {
        let mut row: Vec<u8> = Vec::new();
        let mut x: usize = 0;
        while x < w
            invariant
                slen == s@.len(),
                w == h.width,
                hgt == h.height,
                0 < h.width <= 0xffff,
                0 < h.height <= 0xffff,
                1 <= bpp <= 4,
                s@.len() >= h.width * h.height * bpp,
                y < hgt,
                x <= w,
                row@ == concat_rows(x as int, |x2: int| s@.subrange(tga_storage_index(*h, y as int, x2) * bpp, tga_storage_index(*h, y as int, x2) * bpp + bpp)),
            decreases w - x,
        {
            let sx = if h.descriptor & 0x10 != 0 { w - 1 - x } else { x };
            let sy = if h.descriptor & 0x20 != 0 { y } else { hgt - 1 - y };
            assert(sy * w + sx < w * hgt && (sy * w + sx) * bpp + bpp <= w * hgt * bpp && w * hgt <= w * hgt * bpp) by (nonlinear_arith)
                requires
                    sy < hgt,
                    sx < w,
                    1 <= bpp,
            ;
            assert(sy * w <= sy * w + sx);
            assert(w * hgt * bpp <= 0xffff * 0xffff * 4) by (nonlinear_arith)
                requires
                    w <= 0xffff,
                    hgt <= 0xffff,
                    bpp <= 4,
            ;
            let k = (sy * w + sx) * bpp;
            append_bytes(&mut row, &s.as_slice()[k..k + bpp]);
            x += 1;
        }
        append_bytes(&mut v, &row);
        y += 1;
    }
    v
}

fn tga_pixels(bytes: &[u8], h: &TgaHeader, bpp: usize) -> (r: Result<Vec<u8>>)
    requires
        tga_wf(*h, bytes@.len() as int),
        1 <= bpp <= 4,
    ensures
        match r {
            Ok(v) => spec_tga_pixels(bytes@, *h, bpp as int) == Ok::<Seq<u8>, Failure>(v@),
            Err(e) => spec_tga_pixels(bytes@, *h, bpp as int) == Err::<Seq<u8>, Failure>(failure(e)),
        },
{
    assert(h.width * h.height <= 0xffff * 0xffff) by (nonlinear_arith)
        requires
            h.width <= 0xffff,
            h.height <= 0xffff,
    ;
    let wh = h.width as u64 * h.height as u64;
    let t = wide_mul(wh, bpp as u64);
    if t > usize::MAX as u128 {
        return Err(invalid_data("TGA frame size overflow"));
    }
    let total = t as usize;
    let s = if 1 <= h.image_type && h.image_type <= 3 {
        if h.pixel_offset > usize::MAX - total {
            return Err(invalid_data("TGA image data overflow"));
        }
        let needed = h.pixel_offset + total;
        if needed > h.image_end {
            return Err(unexpected_eof(needed, h.image_end));
        }
        let mut s: Vec<u8> = Vec::new();
        append_bytes(&mut s, &bytes[h.pixel_offset..needed]);
        s
    } else {
        match tga_rle_decode(bytes, h, bpp, total) {
            Ok(s) => s,
            Err(e) => return Err(e),
        }
    };
    Ok(tga_place(&s, h, bpp))
}

/// A 5-bit colour component widened to 8 bits.
pub open spec fn expand5(v: u8) -> u8 {
    (v << 3u8) | (v >> 2u8)
}

/// Byte `c` (blue, green, red, alpha) of colour-map entry `e` of depth `depth`.
pub open spec fn tga_map_entry_byte(b: Seq<u8>, h: TgaHeader, e: int, c: int) -> u8 {
    let bpe = tga_bpp(h.color_map_depth as int);
    let src = h.color_map_offset + e * bpe;
    if h.color_map_depth == 15 || h.color_map_depth == 16 {
        let v = u16_le(b, src) as u16;
        if c == 0 {
            expand5((v & 0x1fu16) as u8)
        } else if c == 1 {
            expand5(((v >> 5u16) & 0x1fu16) as u8)
        } else if c == 2 {
            expand5(((v >> 10u16) & 0x1fu16) as u8)
        } else {
            255u8
        }
    } else if h.color_map_depth == 24 {
        if c == 3 { 255u8 } else { b[src + c] }
    } else {
        b[src + c]
    }
}

/// The 256-entry BGRA palette: map entry `e` lands at index `first + e`, entries past
/// 255 are dropped, unset entries are zero.
pub open spec fn tga_palette_spec(b: Seq<u8>, h: TgaHeader) -> Seq<u8> {
    Seq::new(1024, |i: int| {
        let d = i / 4;
        if h.color_map_first <= d < h.color_map_first + h.color_map_len {
            tga_map_entry_byte(b, h, d - h.color_map_first, i % 4)
        } else {
            0u8
        }
    })
}

fn expand_5_to_8(v: u8) -> (r: u8)
    ensures
        r == expand5(v),
{
    (v << 3) | (v >> 2)
}

fn tga_palette(bytes: &[u8], h: &TgaHeader) -> (p: Vec<u8>)
    requires
        tga_wf(*h, bytes@.len() as int),
        h.color_map_depth == 15 || h.color_map_depth == 16 || h.color_map_depth == 24 || h.color_map_depth == 32,
    ensures
        p@ == tga_palette_spec(bytes@, *h),
{
    let mut p = zeros(1024);
    let bpe = (h.color_map_depth as usize + 7) / 8;
    let first = h.color_map_first;
    let mut e: usize = 0;
    while e < h.color_map_len
        invariant
            tga_wf(*h, bytes@.len() as int),
            h.color_map_depth == 15 || h.color_map_depth == 16 || h.color_map_depth == 24 || h.color_map_depth == 32,
            bpe == tga_bpp(h.color_map_depth as int),
            first == h.color_map_first,
            e <= h.color_map_len,
            p@.len() == 1024,
            forall|i: int| 0 <= i < 1024 ==> #[trigger] p@[i] == (if first <= i / 4 < first + e { tga_palette_spec(bytes@, *h)[i] } else { 0u8 }),
        decreases h.color_map_len - e,
    {
        assert(e * bpe + bpe <= h.color_map_len * bpe) by (nonlinear_arith)
            requires
                e < h.color_map_len,
        ;
        let src = h.color_map_offset + e * bpe;
        let d = first + e;
        if d < 256 {
            let dst = d * 4;
            if h.color_map_depth == 15 || h.color_map_depth == 16 {
                let v = le16(bytes, src);
                p.set(dst, expand_5_to_8((v & 0x1f) as u8));
                p.set(dst + 1, expand_5_to_8(((v >> 5) & 0x1f) as u8));
                p.set(dst + 2, expand_5_to_8(((v >> 10) & 0x1f) as u8));
                p.set(dst + 3, 255);
            } else if h.color_map_depth == 24 {
                p.set(dst, bytes[src]);
                p.set(dst + 1, bytes[src + 1]);
                p.set(dst + 2, bytes[src + 2]);
                p.set(dst + 3, 255);
            } else {
                p.set(dst, bytes[src]);
                p.set(dst + 1, bytes[src + 1]);
                p.set(dst + 2, bytes[src + 2]);
                p.set(dst + 3, bytes[src + 3]);
            }
        }
        e += 1;
    }
    assert(p@ =~= tga_palette_spec(bytes@, *h));
    p
}

/// The decoded frame of a TGA file: for colour-mapped images the stored indexes then
/// the palette, otherwise the stored pixel bytes, in output order.
pub open spec fn spec_tga_frame(b: Seq<u8>) -> core::result::Result<Seq<u8>, Failure> {
    match spec_tga_header(b) {
        Err(e) => Err(e),
        Ok(h) => {
            let bpp = tga_bpp(h.pixel_depth as int);
            if h.image_type == 1 || h.image_type == 9 {
                match spec_tga_pixels(b, h, bpp) {
                    Ok(px) => Ok(px + tga_palette_spec(b, h)),
                    Err(e) => Err(e),
                }
            } else {
                spec_tga_pixels(b, h, bpp)
            }
        },
    }
}

/// Decodes a TGA file.
pub fn tga_frame(bytes: &[u8]) -> (r: Result<Vec<u8>>)
    ensures
        match r {
            Ok(v) => spec_tga_frame(bytes@) == Ok::<Seq<u8>, Failure>(v@),
            Err(e) => spec_tga_frame(bytes@) == Err::<Seq<u8>, Failure>(failure(e)),
        },
{
    let h = match tga_header(bytes) {
        Ok(h) => h,
        Err(e) => return Err(e),
    };
    let bpp = (h.pixel_depth as usize + 7) / 8;
    let mut frame = match tga_pixels(bytes, &h, bpp) {
        Ok(f) => f,
        Err(e) => return Err(e),
    };
    if h.image_type == 1 || h.image_type == 9 {
        let palette = tga_palette(bytes, &h);
        append_bytes(&mut frame, &palette);
    }
    Ok(frame)
}

/// The frame checksum of a TGA file.
pub fn tga_image_frame_hashes(input: &[u8]) -> (r: Result<Vec<AudioFrameHash>>)
    ensures
        listing_outcome(r) == single_listing(spec_tga_frame(input@)),
{
    match tga_frame(input) {
        Ok(frame) => Ok(single_frame_listing(&frame)),
        Err(e) => Err(e),
    }
}


/// Run-length decoding that succeeds yields at least the bytes asked for.
proof fn lemma_tga_rle_len(b: Seq<u8>, h: TgaHeader, bpp: nat, total: int, pos: int, acc: Seq<u8>)
    ensures
        tga_rle_stream(b, h, bpp, total, pos, acc) matches Ok(v) ==> v.len() >= total,
    decreases h.image_end - pos,
{
    let end = h.image_end as int;
    if acc.len() >= total {
    } else if pos < 0 || pos >= end {
    } else {
        let packet = b[pos];
        let count = (packet & 0x7fu8) as int + 1;
        if packet & 0x80u8 != 0 {
            if pos + 1 + bpp <= end {
                lemma_tga_rle_len(b, h, bpp, total, pos + 1 + bpp, acc + repeat_bytes(b.subrange(pos + 1, pos + 1 + bpp), count));
            }
        } else {
            assert(count * bpp >= 0) by (nonlinear_arith)
                requires
                    count >= 1,
            ;
            if pos + 1 + count * bpp <= end {
                lemma_tga_rle_len(b, h, bpp, total, pos + 1 + count * bpp, acc + b.subrange(pos + 1, pos + 1 + count * bpp));
            }
        }
    }
}

/// A TGA image whose origin is the top-left corner (descriptor bit 5 set, bit 4 clear)
/// is stored in picture order: its decoded pixels are the stored pixel stream itself,
/// the first stored row on top, each row left to right.
pub proof fn law_tga_top_left_storage_order(b: Seq<u8>, h: TgaHeader, bpp: int)
    requires
        tga_wf(h, b.len() as int),
        1 <= bpp,
        h.descriptor & 0x30u8 == 0x20u8,
    ensures
        tga_stream(b, h, bpp) matches Ok(s)
            ==> spec_tga_pixels(b, h, bpp) == Ok::<Seq<u8>, Failure>(s.subrange(0, h.width * h.height * bpp)),
{
    if let Ok(s) = tga_stream(b, h, bpp) {
        let w = h.width as int;
        let ht = h.height as int;
        let rl = w * bpp;
        let total = w * ht * bpp;
        let d = h.descriptor;
        assert(d & 0x20u8 != 0 && d & 0x10u8 == 0) by (bit_vector)
            requires
                d & 0x30u8 == 0x20u8,
        ;
        if 1 <= h.image_type <= 3 {
            assert(s.len() == total);
        } else {
            lemma_tga_rle_len(b, h, bpp as nat, total, h.pixel_offset as int, Seq::empty());
        }
        assert(s.len() >= total);
        assert(rl >= 0 && total == ht * rl) by (nonlinear_arith)
            requires
                w > 0,
                bpp >= 1,
                rl == w * bpp,
                total == w * ht * bpp,
        ;
        let f = |y: int| tga_out_row(s, h, bpp, y);
        let g = |i: int| s.subrange(0 + i * rl, 0 + i * rl + rl);
        assert forall|y: int| 0 <= y < ht implies #[trigger] f(y) == g(y) by {
            let o = y * rl;
            assert(0 <= o && o + w * bpp <= total) by (nonlinear_arith)
                requires
                    0 <= y < ht,
                    rl == w * bpp,
                    rl >= 0,
                    o == y * rl,
                    total == ht * rl,
            ;
            let fx = |x: int| s.subrange(tga_storage_index(h, y, x) * bpp, tga_storage_index(h, y, x) * bpp + bpp);
            let gx = |i: int| s.subrange(o + i * bpp, o + i * bpp + bpp);
            assert forall|x: int| 0 <= x < w implies #[trigger] fx(x) == gx(x) by {
                assert(tga_storage_index(h, y, x) == y * w + x);
                assert((y * w + x) * bpp == o + x * bpp) by (nonlinear_arith)
                    requires
                        o == y * rl,
                        rl == w * bpp,
                ;
            }
            lemma_concat_rows_ext(w, fx, gx);
            lemma_concat_chunks(s, o, w, bpp);
            assert(f(y) == tga_out_row(s, h, bpp, y));
        }
        lemma_concat_rows_ext(ht, f, g);
        lemma_concat_chunks(s, 0, ht, rl);
    }
}


/// A TGA image with the default bottom-left origin (descriptor bits 4 and 5 clear) is
/// stored bottom row first: output row `y` is stored row `height - 1 - y`, each row
/// left to right.
pub proof fn law_tga_bottom_left_rows_reversed(b: Seq<u8>, h: TgaHeader, bpp: int)
    requires
        tga_wf(h, b.len() as int),
        1 <= bpp,
        h.descriptor & 0x30u8 == 0u8,
    ensures
        tga_stream(b, h, bpp) matches Ok(s)
            ==> spec_tga_pixels(b, h, bpp) == Ok::<Seq<u8>, Failure>(concat_rows(h.height as int,
                |y: int| s.subrange((h.height - 1 - y) * (h.width * bpp), (h.height - 1 - y) * (h.width * bpp) + h.width * bpp))),
{
    if let Ok(s) = tga_stream(b, h, bpp) {
        let w = h.width as int;
        let ht = h.height as int;
        let rl = w * bpp;
        let total = w * ht * bpp;
        let d = h.descriptor;
        assert(d & 0x20u8 == 0 && d & 0x10u8 == 0) by (bit_vector)
            requires
                d & 0x30u8 == 0u8,
        ;
        if 1 <= h.image_type <= 3 {
            assert(s.len() == total);
        } else {
            lemma_tga_rle_len(b, h, bpp as nat, total, h.pixel_offset as int, Seq::empty());
        }
        assert(rl >= 0 && total == ht * rl) by (nonlinear_arith)
            requires
                w > 0,
                bpp >= 1,
                rl == w * bpp,
                total == w * ht * bpp,
        ;
        let f = |y: int| tga_out_row(s, h, bpp, y);
        let g = |y: int| s.subrange((ht - 1 - y) * rl, (ht - 1 - y) * rl + rl);
        assert forall|y: int| 0 <= y < ht implies #[trigger] f(y) == g(y) by {
            let o = (ht - 1 - y) * rl;
            assert(0 <= o && o + w * bpp <= total) by (nonlinear_arith)
                requires
                    0 <= y < ht,
                    rl == w * bpp,
                    rl >= 0,
                    o == (ht - 1 - y) * rl,
                    total == ht * rl,
            ;
            let fx = |x: int| s.subrange(tga_storage_index(h, y, x) * bpp, tga_storage_index(h, y, x) * bpp + bpp);
            let gx = |i: int| s.subrange(o + i * bpp, o + i * bpp + bpp);
            assert forall|x: int| 0 <= x < w implies #[trigger] fx(x) == gx(x) by {
                assert(tga_storage_index(h, y, x) == (ht - 1 - y) * w + x);
                assert(((ht - 1 - y) * w + x) * bpp == o + x * bpp) by (nonlinear_arith)
                    requires
                        o == (ht - 1 - y) * rl,
                        rl == w * bpp,
                ;
            }
            lemma_concat_rows_ext(w, fx, gx);
            lemma_concat_chunks(s, o, w, bpp);
            assert(f(y) == tga_out_row(s, h, bpp, y));
        }
        lemma_concat_rows_ext(ht, f, g);
        assert(g =~= (|y: int| s.subrange((h.height - 1 - y) * (h.width * bpp), (h.height - 1 - y) * (h.width * bpp) + h.width * bpp)));
    }
}

} // verus!
