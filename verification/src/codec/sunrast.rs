use vstd::prelude::*;
use crate::bytes::{be32, sat, sat_add, has_tag, tag_at, u32_be};
use crate::error::{eof, invalid_data, outcome, unexpected_eof, unsupported, Failure, Result, RmpegError};
use crate::bytes::{append_bytes, zeros};
use crate::codec::digest::{listing_outcome, single_frame_listing, single_listing};
use crate::metadata::AudioFrameHash;
use crate::error::with_number;

verus! {

/// The fields of a Sun Raster header that decoding needs.
#[derive(Debug, Clone, Copy, PartialEq, Eq)]
pub struct SunrastHeader {
    pub width: usize,
    pub height: usize,
    pub depth: u32,
    pub raster_type: u32,
    pub map_type: u32,
    pub map_len: usize,
    pub data_offset: usize,
}

/// The header of a Sun Raster image: signature, nonzero size, depth 1, 8 or 24, an
/// old, standard or byte-encoded raster, no map or an RGB map, and the raster after
/// the map.
pub open spec fn spec_sunrast_header(b: Seq<u8>) -> core::result::Result<SunrastHeader, Failure> {
    let w = u32_be(b, 4);
    let h = u32_be(b, 8);
    let depth = u32_be(b, 12);
    let rtype = u32_be(b, 20);
    let mtype = u32_be(b, 24);
    let mlen = u32_be(b, 28);
    if b.len() < 32 {
        Err(eof(32, b.len() as int))
    } else if !has_tag(b, 0, seq![0x59u8, 0xa6, 0x6a, 0x95]) {
        Err(Failure::InvalidData)
    } else if w == 0 || h == 0 {
        Err(Failure::InvalidData)
    } else if depth != 1 && depth != 8 && depth != 24 {
        Err(Failure::Unsupported)
    } else if rtype > 2 {
        Err(Failure::Unsupported)
    } else if mtype > 1 {
        Err(Failure::Unsupported)
    } else if 32 + mlen > usize::MAX {
        Err(Failure::InvalidData)
    } else if 32 + mlen > b.len() {
        Err(eof(32 + mlen, b.len() as int))
    } else {
        Ok(SunrastHeader { width: w as usize, height: h as usize, depth: depth as u32, raster_type: rtype as u32,
            map_type: mtype as u32, map_len: mlen as usize, data_offset: (32 + mlen) as usize })
    }
}

/// The bytes decoded from byte-encoded data `p` from `pos` on, after `acc`, until
/// `expected` bytes are decoded: `80 00` is a literal `80`, `80 n v` is `n + 1` copies
/// of `v`, any other byte stands for itself.
pub open spec fn sun_rle(p: Seq<u8>, expected: int, pos: int, acc: Seq<u8>) -> core::result::Result<Seq<u8>, Failure>
    decreases p.len() - pos,
{
    if acc.len() >= expected {
        Ok(acc)
    } else if pos < 0 || pos >= p.len() {
        Err(eof(sat(pos + 1), p.len() as int))
    } else if p[pos] != 0x80 {
        sun_rle(p, expected, pos + 1, acc.push(p[pos]))
    } else if pos + 1 >= p.len() {
        Err(eof(sat(pos + 2), p.len() as int))
    } else if p[pos + 1] == 0 {
        sun_rle(p, expected, pos + 2, acc.push(0x80))
    } else if pos + 2 >= p.len() {
        Err(eof(sat(pos + 3), p.len() as int))
    } else if acc.len() + p[pos + 1] + 1 > expected {
        Err(Failure::InvalidData)
    } else {
        sun_rle(p, expected, pos + 3, acc + Seq::new((p[pos + 1] + 1) as nat, |i: int| p[pos + 2]))
    }
}

/// Byte `k` of the palette built from an RGB map of `n` entries per colour (at most 256
/// used), in blue, green, red, 255 order; unused entries stay zero.
pub open spec fn sun_palette_byte(b: Seq<u8>, n: int, k: int) -> u8 {
    let e = k / 4;
    if e >= n || e >= 256 {
        0
    } else if k % 4 == 0 {
        b[32 + 2 * n + e]
    } else if k % 4 == 1 {
        b[32 + n + e]
    } else if k % 4 == 2 {
        b[32 + e]
    } else {
        255
    }
}

/// The frame of a Sun Raster image: its rows (padded to 16 bits), decoded when byte
/// encoded, then the palette for an 8-bit image with an RGB map.
pub open spec fn spec_sunrast_frame(b: Seq<u8>, h: SunrastHeader) -> core::result::Result<Seq<u8>, Failure> {
    let bits = h.width * h.depth;
    let row = (bits + 15) / 16 * 2;
    let image = row * h.height;
    let off = h.data_offset as int;
    let pixels = if bits > usize::MAX || image > usize::MAX {
        Err(Failure::InvalidData)
    } else if h.raster_type == 2 {
        sun_rle(b.subrange(off, b.len() as int), image, 0, Seq::empty())
    } else if off + image > usize::MAX {
        Err(Failure::InvalidData)
    } else if off + image > b.len() {
        Err(eof(off + image, b.len() as int))
    } else {
        Ok(b.subrange(off, off + image))
    };
    match pixels {
        Err(e) => Err(e),
        Ok(f) => if h.depth == 8 && h.map_type == 1 && h.map_len > 0 {
            if h.map_len % 3 != 0 {
                Err(Failure::InvalidData)
            } else {
                Ok(f + Seq::new(1024, |k: int| sun_palette_byte(b, (h.map_len / 3) as int, k)))
            }
        } else {
            Ok(f)
        },
    }
}

/// The decoded frame of a Sun Raster image.
pub open spec fn spec_sunrast_image(b: Seq<u8>) -> core::result::Result<Seq<u8>, Failure> {
    match spec_sunrast_header(b) {
        Err(e) => Err(e),
        Ok(h) => spec_sunrast_frame(b, h),
    }
}

/// Reads a Sun Raster header.
pub fn sunrast_header(bytes: &[u8]) -> (r: Result<SunrastHeader>)
    ensures
        outcome(r) == spec_sunrast_header(bytes@),
        r is Ok ==> r->Ok_0.data_offset == 32 + r->Ok_0.map_len && r->Ok_0.data_offset <= bytes@.len()
            && r->Ok_0.depth <= 24,
{
    let len = bytes.len();
    if len < 32 {
        return Err(unexpected_eof(32, len));
    }
    if !tag_at(bytes, 0, &[0x59u8, 0xa6, 0x6a, 0x95]) {
        return Err(invalid_data("missing Sun Raster signature"));
    }
    let width = be32(bytes, 4) as usize;
    let height = be32(bytes, 8) as usize;
    let depth = be32(bytes, 12);
    let raster_type = be32(bytes, 20);
    let map_type = be32(bytes, 24);
    let map_len = be32(bytes, 28) as usize;
    if width == 0 || height == 0 {
        return Err(invalid_data("Sun Raster dimensions must be nonzero"));
    }
    if depth != 1 && depth != 8 && depth != 24 {
        return Err(RmpegError::Unsupported(with_number("unsupported Sun Raster depth ", depth as u64)));
    }
    if raster_type > 2 {
        return Err(RmpegError::Unsupported(with_number("unsupported Sun Raster type ", raster_type as u64)));
    }
    if map_type > 1 {
        return Err(RmpegError::Unsupported(with_number("unsupported Sun Raster map type ", map_type as u64)));
    }
    if map_len > usize::MAX - 32 {
        return Err(invalid_data("Sun Raster data offset overflow"));
    }
    let data_offset = 32 + map_len;
    if data_offset > len {
        return Err(unexpected_eof(data_offset, len));
    }
    Ok(SunrastHeader { width, height, depth, raster_type, map_type, map_len, data_offset })
}

/// Decodes byte-encoded raster data.
fn sunrast_decode_rle(input: &[u8], expected_len: usize) -> (r: Result<Vec<u8>>)
    ensures
        match sun_rle(input@, expected_len as int, 0, Seq::empty()) {
            Ok(f) => r is Ok && r->Ok_0@ == f,
            Err(e) => outcome(r) == Err::<Vec<u8>, Failure>(e),
        },
{
    let len = input.len();
    let mut output: Vec<u8> = Vec::new();
    let mut pos: usize = 0;
    while output.len() < expected_len
        invariant
            len == input@.len(),
            pos <= len,
            output@.len() <= expected_len,
            sun_rle(input@, expected_len as int, 0, Seq::empty()) == sun_rle(input@, expected_len as int, pos as int, output@),
        decreases len - pos,
    {
        if pos >= len {
            return Err(unexpected_eof(sat_add(pos, 1), len));
        }
        let value = input[pos];
        if value != 0x80 {
            output.push(value);
            pos = pos + 1;
        } else if len - pos < 2 {
            return Err(unexpected_eof(sat_add(pos, 2), len));
        } else if input[pos + 1] == 0 {
            output.push(0x80);
            pos = pos + 2;
        } else if len - pos < 3 {
            return Err(unexpected_eof(sat_add(pos, 3), len));
        } else {
            let count = input[pos + 1] as usize;
            let repeated = input[pos + 2];
            if count + 1 > expected_len - output.len() {
                return Err(invalid_data("Sun Raster RLE expands past frame size"));
            }
            let ghost before = output@;
            let mut k: usize = 0;
            while k <= count
                invariant
                    count <= 255,
                    k <= count + 1,
                    output@ == before + Seq::new(k as nat, |i: int| repeated),
                decreases count + 1 - k,
            {
                output.push(repeated);
                assert(before + Seq::new((k + 1) as nat, |i: int| repeated) =~= (before + Seq::new(k as nat, |i: int| repeated)).push(repeated));
                k = k + 1;
            }
            assert(Seq::new((count + 1) as nat, |i: int| repeated) =~= Seq::new((input@[pos + 1] + 1) as nat, |i: int| input@[pos + 2]));
            pos = pos + 3;
        }
    }
    Ok(output)
}

/// The palette of an 8-bit image with an RGB map.
fn sunrast_palette(bytes: &[u8], header: &SunrastHeader) -> (r: Vec<u8>)
    requires
        header.map_len % 3 == 0,
        32 + header.map_len <= bytes@.len(),
    ensures
        r@ == Seq::new(1024, |k: int| sun_palette_byte(bytes@, (header.map_len / 3) as int, k)),
{
    let n = header.map_len / 3;
    let entries = if n < 256 { n } else { 256 };
    let mut palette = zeros(1024);
    let mut e: usize = 0;
    while e < entries
        invariant
            n == header.map_len / 3,
            32 + 3 * n <= bytes@.len(),
            entries == (if n < 256 { n } else { 256 }),
            e <= entries,
            palette@.len() == 1024,
            forall|k: int| 0 <= k < 1024 ==> #[trigger] palette@[k] == (if k / 4 < e { sun_palette_byte(bytes@, n as int, k) } else { 0u8 }),
        decreases entries - e,
    {
        let dst = e * 4;
        palette.set(dst, bytes[32 + 2 * n + e]);
        palette.set(dst + 1, bytes[32 + n + e]);
        palette.set(dst + 2, bytes[32 + e]);
        palette.set(dst + 3, 255);
        assert forall|k: int| 0 <= k < 1024 implies #[trigger] palette@[k] == (if k / 4 < e + 1 { sun_palette_byte(bytes@, n as int, k) } else { 0u8 }) by {
            if dst <= k < dst + 4 {
                assert(k / 4 == e);
            }
        }
        e = e + 1;
    }
    assert(palette@ =~= Seq::new(1024, |k: int| sun_palette_byte(bytes@, (header.map_len / 3) as int, k)));
    palette
}

/// Decodes the raster of a Sun Raster image.
pub fn sunrast_frame(bytes: &[u8], header: &SunrastHeader) -> (r: Result<Vec<u8>>)
    requires
        header.data_offset == 32 + header.map_len,
        header.data_offset <= bytes@.len(),
        header.depth <= 24,
    ensures
        match spec_sunrast_frame(bytes@, *header) {
            Ok(f) => r is Ok && r->Ok_0@ == f,
            Err(e) => outcome(r) == Err::<Vec<u8>, Failure>(e),
        },
{
    let len = bytes.len();
    let bits = match header.width.checked_mul(header.depth as usize) {
        Some(v) => v,
        None => return Err(invalid_data("Sun Raster row size overflow")),
    };
    let row = (bits / 16 + if bits % 16 == 0 { 0 } else { 1 }) * 2;
    assert(row == (bits + 15) / 16 * 2);
    let image = match row.checked_mul(header.height) {
        Some(v) => v,
        None => return Err(invalid_data("Sun Raster frame size overflow")),
    };
    let off = header.data_offset;
    let mut frame: Vec<u8> = if header.raster_type == 2 {
        match sunrast_decode_rle(&bytes[off..len], image) { Ok(f) => f, Err(e) => return Err(e) }
    } else {
        if image > usize::MAX - off {
            return Err(invalid_data("Sun Raster data range overflow"));
        }
        if off + image > len {
            return Err(unexpected_eof(off + image, len));
        }
        let mut f: Vec<u8> = Vec::new();
        append_bytes(&mut f, &bytes[off..off + image]);
        f
    };
    if header.depth == 8 && header.map_type == 1 && header.map_len > 0 {
        if header.map_len % 3 != 0 {
            return Err(invalid_data("Sun Raster RGB map length is not divisible by three"));
        }
        let palette = sunrast_palette(bytes, header);
        append_bytes(&mut frame, palette.as_slice());
    }
    Ok(frame)
}

/// The frame-checksum listing of a Sun Raster image: one frame.
pub fn sunrast_image_frame_hashes(input: &[u8]) -> (r: Result<Vec<AudioFrameHash>>)
    ensures
        listing_outcome(r) == single_listing(spec_sunrast_image(input@)),
{
    let header = match sunrast_header(input) { Ok(h) => h, Err(e) => return Err(e) };
    match sunrast_frame(input, &header) {
        Ok(frame) => Ok(single_frame_listing(&frame)),
        Err(e) => Err(e),
    }
}

} // verus!
