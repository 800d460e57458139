use vstd::prelude::*;
use crate::bytes::{first_tag, find_tag, has_tag, le16, tag_at, u16_le};
use crate::error::{eof, invalid_data, outcome, unexpected_eof, unsupported, Failure, Result, RmpegError};
use crate::bytes::append_bytes;
use crate::codec::digest::{listing_outcome, single_frame_listing, single_listing};
use crate::metadata::AudioFrameHash;
use crate::error::push_hex_byte;

verus! {

/// Where the frame of a BRender PIX image lies, and the palette that follows it.
#[derive(Debug, Clone, PartialEq, Eq)]
pub struct BRenderPixHeader {
    pub frame_offset: usize,
    pub frame_size: usize,
    pub palette: Option<Vec<u8>>,
}

/// The marker that precedes the indices of a paletted image.
pub open spec fn index_marker() -> Seq<u8> {
    seq![0x21u8, 0x00, 0x01, 0x00, 0x08, 0x00, 0x01, 0x00, 0x00, 0x00, 0x00, 0x00, 0x01]
}

/// The marker that precedes an embedded palette.
pub open spec fn palette_marker() -> Seq<u8> {
    seq![0x21u8, 0x00, 0x00, 0x04, 0x08, 0x00, 0x00, 0x01, 0x00, 0x00, 0x00, 0x00, 0x04, 0x00]
}

/// The 64 gray levels of the default palette.
pub open spec fn gray64() -> Seq<u8> {
    seq![0u8, 3, 6, 9, 12, 15, 18, 21, 24, 27, 30, 33, 36, 39, 42, 45, 49, 52, 55, 58, 61, 64, 67, 70, 73,
        76, 79, 82, 85, 88, 91, 94, 98, 101, 104, 107, 110, 113, 116, 119, 122, 125, 128, 131, 134,
        137, 140, 143, 147, 153, 160, 167, 174, 180, 187, 194, 201, 207, 214, 221, 228, 234, 241, 248]
}

/// The bright ramp of the default palette's colour groups.
pub open spec fn ramp32() -> Seq<u8> {
    seq![0u8, 9, 19, 29, 39, 49, 59, 69, 79, 89, 99, 109, 119, 128, 138, 148, 158, 168, 178, 188, 198,
        208, 218, 228, 238, 240, 242, 244, 246, 248, 250, 252]
}

/// The dim ramp of the default palette's colour groups.
pub open spec fn dim32() -> Seq<u8> {
    seq![0u8, 2, 5, 7, 10, 12, 15, 17, 20, 22, 24, 27, 30, 32, 34, 37, 40, 42, 45, 47, 49, 52, 55, 57, 60,
        84, 108, 133, 157, 181, 206, 230]
}

/// The (blue, green, red) of default palette entry `e`: 64 grays, then six groups of 32
/// mixing the bright and dim ramps.
pub open spec fn default_entry(e: int) -> (u8, u8, u8) {
    let i = (e - 64) % 32;
    let g = (e - 64) / 32;
    let hi = ramp32()[i];
    let lo = dim32()[i];
    if e < 64 {
        (gray64()[e], gray64()[e], gray64()[e])
    } else if g == 0 {
        (hi, lo, lo)
    } else if g == 1 {
        (lo, hi, lo)
    } else if g == 2 {
        (hi, hi, lo)
    } else if g == 3 {
        (lo, lo, hi)
    } else if g == 4 {
        (hi, lo, hi)
    } else {
        (lo, hi, hi)
    }
}

/// Byte `k` of the default palette (blue, green, red, 255 per entry).
pub open spec fn default_palette_byte(k: int) -> u8 {
    let e = default_entry(k / 4);
    if k % 4 == 0 { e.0 } else if k % 4 == 1 { e.1 } else if k % 4 == 2 { e.2 } else { 255u8 }
}

/// Byte `k` of a palette read from stored entries at `start` of `b` (red, green, blue,
/// padding), reordered to blue, green, red, 255.
pub open spec fn embedded_palette_byte(b: Seq<u8>, start: int, k: int) -> u8 {
    let src = start + (k / 4) * 4;
    if k % 4 == 0 { b[src + 2] } else if k % 4 == 1 { b[src + 1] } else if k % 4 == 2 { b[src] } else { 255u8 }
}

/// The palette of a paletted image: the embedded one after its marker, or the default.
pub open spec fn spec_brender_palette(b: Seq<u8>) -> core::result::Result<Seq<u8>, Failure> {
    match first_tag(b, palette_marker()) {
        None => Ok(Seq::new(1024, |k: int| default_palette_byte(k))),
        Some(pos) => {
            let start = pos + 14;
            if start + 1024 > usize::MAX {
                Err(Failure::InvalidData)
            } else if start + 1024 > b.len() {
                Err(eof(start + 1024, b.len() as int))
            } else {
                Ok(Seq::new(1024, |k: int| embedded_palette_byte(b, start, k)))
            }
        },
    }
}

/// Whether the first sixteen bytes of `b` are the BRender PIX header.
pub open spec fn brender_magic(b: Seq<u8>) -> bool {
    has_tag(b, 0, seq![0x00u8, 0x00, 0x00, 0x12, 0x00, 0x00, 0x00, 0x08, 0x00, 0x00, 0x00, 0x02, 0x00, 0x00, 0x00, 0x02])
}

/// The frame offset, frame size and palette of a BRender PIX image: 16-bit pixels after
/// the 54-byte header for the `ya8` and `rgb565` markers, 8-bit indices after the index
/// marker, with a palette, for the paletted marker.
pub open spec fn spec_brender_header(b: Seq<u8>) -> core::result::Result<(int, int, Option<Seq<u8>>), Failure> {
    let m = b.subrange(24, 28);
    let w = u16_le(b, 28);
    let h16 = u16_le(b, 30);
    let h8 = u16_le(b, 26);
    if b.len() < 54 {
        Err(eof(54, b.len() as int))
    } else if !brender_magic(b) {
        Err(Failure::InvalidData)
    } else if m == seq![0x12u8, 0x00, 0x20, 0x00] || m == seq![0x05u8, 0x01, 0x00, 0x00] {
        if w == 0 || h16 == 0 {
            Err(Failure::InvalidData)
        } else if w * h16 * 2 > usize::MAX || 54 + w * h16 * 2 > usize::MAX {
            Err(Failure::InvalidData)
        } else if 54 + w * h16 * 2 > b.len() {
            Err(eof(54 + w * h16 * 2, b.len() as int))
        } else {
            Ok((54, w * h16 * 2, None))
        }
    } else if b[24] == 3 && b[25] == 1 {
        if w == 0 || h8 == 0 {
            Err(Failure::InvalidData)
        } else if w * h8 > usize::MAX {
            Err(Failure::InvalidData)
        } else {
            match first_tag(b, index_marker()) {
                None => Err(Failure::InvalidData),
                Some(p) => match spec_brender_palette(b) {
                    Err(e) => Err(e),
                    Ok(pal) => if p + 13 + w * h8 > usize::MAX {
                        Err(Failure::InvalidData)
                    } else if p + 13 + w * h8 > b.len() {
                        Err(eof(p + 13 + w * h8, b.len() as int))
                    } else {
                        Ok((p + 13, w * h8, Some(pal)))
                    },
                },
            }
        }
    } else {
        Err(Failure::Unsupported)
    }
}

/// The frame of a BRender PIX image: its pixel data, then its palette when it has one.
pub open spec fn spec_brender_frame(b: Seq<u8>) -> core::result::Result<Seq<u8>, Failure> {
    match spec_brender_header(b) {
        Err(e) => Err(e),
        Ok((off, size, pal)) => Ok(b.subrange(off, off + size) + match pal { Some(p) => p, None => Seq::empty() }),
    }
}

/// The default palette.
pub fn brender_pix_default_palette() -> (v: Vec<u8>)
    ensures
        v@ == Seq::new(1024, |k: int| default_palette_byte(k)),
{
    let gray: Vec<u8> = vec![0, 3, 6, 9, 12, 15, 18, 21, 24, 27, 30, 33, 36, 39, 42, 45, 49, 52, 55, 58, 61, 64, 67, 70, 73,
        76, 79, 82, 85, 88, 91, 94, 98, 101, 104, 107, 110, 113, 116, 119, 122, 125, 128, 131, 134,
        137, 140, 143, 147, 153, 160, 167, 174, 180, 187, 194, 201, 207, 214, 221, 228, 234, 241, 248];
    let ramp: Vec<u8> = vec![0, 9, 19, 29, 39, 49, 59, 69, 79, 89, 99, 109, 119, 128, 138, 148, 158, 168, 178, 188, 198,
        208, 218, 228, 238, 240, 242, 244, 246, 248, 250, 252];
    let dim: Vec<u8> = vec![0, 2, 5, 7, 10, 12, 15, 17, 20, 22, 24, 27, 30, 32, 34, 37, 40, 42, 45, 47, 49, 52, 55, 57, 60,
        84, 108, 133, 157, 181, 206, 230];
    assert(gray@ == gray64());
    assert(ramp@ == ramp32());
    assert(dim@ == dim32());
    let mut palette: Vec<u8> = Vec::new();
    let mut e: usize = 0;
    while e < 256
        invariant
            gray@ == gray64(),
            ramp@ == ramp32(),
            dim@ == dim32(),
            e <= 256,
            palette@.len() == 4 * e,
            forall|k: int| 0 <= k < 4 * e ==> #[trigger] palette@[k] == default_palette_byte(k),
        decreases 256 - e,
    {
        let (b, g, r): (u8, u8, u8) = if e < 64 {
            (gray[e], gray[e], gray[e])
        } else {
            let i = (e - 64) % 32;
            let group = (e - 64) / 32;
            let hi = ramp[i];
            let lo = dim[i];
            if group == 0 { (hi, lo, lo) } else if group == 1 { (lo, hi, lo) } else if group == 2 { (hi, hi, lo) }
            else if group == 3 { (lo, lo, hi) } else if group == 4 { (hi, lo, hi) } else { (lo, hi, hi) }
        };
        assert((b, g, r) == default_entry(e as int));
        palette.push(b);
        palette.push(g);
        palette.push(r);
        palette.push(255);
        assert forall|k: int| 4 * e <= k < 4 * e + 4 implies #[trigger] palette@[k] == default_palette_byte(k) by {
            assert(k / 4 == e);
        }
        e = e + 1;
    }
    assert(palette@ =~= Seq::new(1024, |k: int| default_palette_byte(k)));
    palette
}

/// The palette of a paletted image.
fn brender_pix_palette(bytes: &[u8]) -> (r: Result<Vec<u8>>)
    ensures
        match spec_brender_palette(bytes@) {
            Ok(p) => r is Ok && r->Ok_0@ == p,
            Err(e) => outcome(r) == Err::<Vec<u8>, Failure>(e),
        },
{
    let pos = match find_tag(bytes, &[0x21u8, 0x00, 0x00, 0x04, 0x08, 0x00, 0x00, 0x01, 0x00, 0x00, 0x00, 0x00, 0x04, 0x00]) {
        Some(p) => p,
        None => return Ok(brender_pix_default_palette()),
    };
    let len = bytes.len();
    let start = pos + 14;
    if start > usize::MAX - 1024 {
        return Err(invalid_data("BRender PIX palette overflow"));
    }
    if len - start < 1024 {
        return Err(unexpected_eof(start + 1024, len));
    }
    let mut palette: Vec<u8> = Vec::new();
    let mut e: usize = 0;
    while e < 256
        invariant
            len == bytes@.len(),
            start + 1024 <= len,
            e <= 256,
            palette@.len() == 4 * e,
            forall|k: int| 0 <= k < 4 * e ==> #[trigger] palette@[k] == embedded_palette_byte(bytes@, start as int, k),
        decreases 256 - e,
    {
        let src = start + e * 4;
        palette.push(bytes[src + 2]);
        palette.push(bytes[src + 1]);
        palette.push(bytes[src]);
        palette.push(255);
        assert forall|k: int| 4 * e <= k < 4 * e + 4 implies #[trigger] palette@[k] == embedded_palette_byte(bytes@, start as int, k) by {
            assert(k / 4 == e);
        }
        e = e + 1;
    }
    assert(palette@ =~= Seq::new(1024, |k: int| embedded_palette_byte(bytes@, start as int, k)));
    Ok(palette)
}

/// Reads a BRender PIX header.
pub fn brender_pix_header(bytes: &[u8]) -> (r: Result<BRenderPixHeader>)
    ensures
        match spec_brender_header(bytes@) {
            Ok((off, size, pal)) => r is Ok && r->Ok_0.frame_offset == off && r->Ok_0.frame_size == size
                && off + size <= bytes@.len() && match pal {
                    Some(p) => r->Ok_0.palette is Some && r->Ok_0.palette->0@ == p,
                    None => r->Ok_0.palette is None,
                },
            Err(e) => outcome(r) == Err::<BRenderPixHeader, Failure>(e),
        },
{
    let len = bytes.len();
    if len < 54 {
        return Err(unexpected_eof(54, len));
    }
    if !tag_at(bytes, 0, &[0x00u8, 0x00, 0x00, 0x12, 0x00, 0x00, 0x00, 0x08, 0x00, 0x00, 0x00, 0x02, 0x00, 0x00, 0x00, 0x02]) {
        return Err(invalid_data("missing BRender PIX header"));
    }
    let width = le16(bytes, 28) as usize;
    if tag_at(bytes, 24, &[0x12u8, 0x00, 0x20, 0x00]) || tag_at(bytes, 24, &[0x05u8, 0x01, 0x00, 0x00]) {
        let height = le16(bytes, 30) as usize;
        if width == 0 || height == 0 {
            return Err(invalid_data("BRender PIX dimensions must be nonzero"));
        }
        let pixels = match width.checked_mul(height) { Some(p) => p, None => return Err(invalid_data("BRender PIX pixel count overflow")) };
        let size = match pixels.checked_mul(2) { Some(s) => s, None => return Err(invalid_data("BRender PIX frame size overflow")) };
        if size > usize::MAX - 54 {
            return Err(invalid_data("BRender PIX frame range overflow"));
        }
        if 54 + size > len {
            return Err(unexpected_eof(54 + size, len));
        }
        return Ok(BRenderPixHeader { frame_offset: 54, frame_size: size, palette: None });
    }
    if bytes[24] == 3 && bytes[25] == 1 {
        let height = le16(bytes, 26) as usize;
        if width == 0 || height == 0 {
            return Err(invalid_data("BRender PIX dimensions must be nonzero"));
        }
        let pixels = match width.checked_mul(height) { Some(p) => p, None => return Err(invalid_data("BRender PIX pixel count overflow")) };
        let marker = match find_tag(bytes, &[0x21u8, 0x00, 0x01, 0x00, 0x08, 0x00, 0x01, 0x00, 0x00, 0x00, 0x00, 0x00, 0x01]) {
            Some(p) => p,
            None => return Err(invalid_data("missing BRender PIX index marker")),
        };
        let offset = marker + 13;
        let palette = match brender_pix_palette(bytes) { Ok(p) => p, Err(e) => return Err(e) };
        if pixels > usize::MAX - offset {
            return Err(invalid_data("BRender PIX frame range overflow"));
        }
        if offset + pixels > len {
            return Err(unexpected_eof(offset + pixels, len));
        }
        return Ok(BRenderPixHeader { frame_offset: offset, frame_size: pixels, palette: Some(palette) });
    }
    let mut m = "unsupported BRender PIX pixel format ".to_string();
    push_hex_byte(&mut m, bytes[24]);
    push_hex_byte(&mut m, bytes[25]);
    push_hex_byte(&mut m, bytes[26]);
    push_hex_byte(&mut m, bytes[27]);
    Err(RmpegError::Unsupported(m))
}

/// Decodes a BRender PIX image.
pub fn brender_pix_frame(input: &[u8]) -> (r: Result<Vec<u8>>)
    ensures
        match spec_brender_frame(input@) {
            Ok(f) => r is Ok && r->Ok_0@ == f,
            Err(e) => outcome(r) == Err::<Vec<u8>, Failure>(e),
        },
{
    let header = match brender_pix_header(input) { Ok(h) => h, Err(e) => return Err(e) };
    let mut frame: Vec<u8> = Vec::new();
    append_bytes(&mut frame, &input[header.frame_offset..header.frame_offset + header.frame_size]);
    match &header.palette {
        Some(p) => append_bytes(&mut frame, p.as_slice()),
        None => {},
    }
    Ok(frame)
}

/// The frame-checksum listing of a BRender PIX image: one frame.
pub fn brender_pix_image_frame_hashes(input: &[u8]) -> (r: Result<Vec<AudioFrameHash>>)
    ensures
        listing_outcome(r) == single_listing(spec_brender_frame(input@)),
{
    match brender_pix_frame(input) {
        Ok(frame) => Ok(single_frame_listing(&frame)),
        Err(e) => Err(e),
    }
}

} // verus!
