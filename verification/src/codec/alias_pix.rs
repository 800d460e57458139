use vstd::prelude::*;
use crate::bytes::{be16, sat, sat_add, u16_be};
use crate::error::{eof, invalid_data, outcome, unexpected_eof, unsupported, Failure, Result, RmpegError};
use crate::bytes::append_bytes;
use crate::codec::digest::{listing_outcome, single_frame_listing, single_listing};
use crate::codec::tga::repeat_bytes;
use crate::metadata::AudioFrameHash;
use crate::error::with_number;

verus! {

/// The pixels decoded from run-length packets of `p` from `pos` on, after `acc`, until
/// `pixels` pixels of `bpp` bytes are decoded: each packet is a count from 1 to 255
/// and one pixel value to repeat.
pub open spec fn alias_rle(p: Seq<u8>, pixels: int, bpp: int, pos: int, decoded: int, acc: Seq<u8>)
    -> core::result::Result<Seq<u8>, Failure>
    decreases pixels - decoded,
{
    if decoded >= pixels {
        Ok(acc)
    } else if pos + 1 + bpp > p.len() {
        Err(eof(sat(pos + 1 + bpp), p.len() as int))
    } else if p[pos] == 0 {
        Err(Failure::InvalidData)
    } else if decoded + p[pos] > pixels {
        Err(Failure::InvalidData)
    } else {
        alias_rle(p, pixels, bpp, pos + 1 + bpp, decoded + p[pos], acc + repeat_bytes(p.subrange(pos + 1, pos + 1 + bpp), p[pos] as int))
    }
}

/// The frame of an Alias PIX image: a ten-byte header (big-endian width and height,
/// four zero bytes, 8 or 24 bits per pixel), then run-length packets.
pub open spec fn spec_alias_pix_frame(b: Seq<u8>) -> core::result::Result<Seq<u8>, Failure> {
    let w = u16_be(b, 0);
    let h = u16_be(b, 2);
    let bits = u16_be(b, 8);
    let bpp = if bits == 8 { 1int } else { 3int };
    if b.len() < 10 {
        Err(eof(10, b.len() as int))
    } else if b[4] != 0 || b[5] != 0 || b[6] != 0 || b[7] != 0 {
        Err(Failure::InvalidData)
    } else if w == 0 || h == 0 {
        Err(Failure::InvalidData)
    } else if bits != 8 && bits != 24 {
        Err(Failure::Unsupported)
    } else if w * h * bpp > usize::MAX {
        Err(Failure::InvalidData)
    } else {
        alias_rle(b.subrange(10, b.len() as int), w * h, bpp, 0, 0, Seq::empty())
    }
}

/// Decodes the run-length packets of an Alias PIX image.
fn alias_pix_rle_frame(packets: &[u8], pixels: usize, bytes_per_pixel: usize) -> (r: Result<Vec<u8>>)
    requires
        bytes_per_pixel == 1 || bytes_per_pixel == 3,
    ensures
        match alias_rle(packets@, pixels as int, bytes_per_pixel as int, 0, 0, Seq::empty()) {
            Ok(f) => r is Ok && r->Ok_0@ == f,
            Err(e) => outcome(r) == Err::<Vec<u8>, Failure>(e),
        },
{
    let len = packets.len();
    let mut frame: Vec<u8> = Vec::new();
    let mut decoded: usize = 0;
    let mut pos: usize = 0;
    while decoded < pixels
        invariant
            len == packets@.len(),
            bytes_per_pixel == 1 || bytes_per_pixel == 3,
            decoded <= pixels,
            pos <= len,
            alias_rle(packets@, pixels as int, bytes_per_pixel as int, 0, 0, Seq::empty())
                == alias_rle(packets@, pixels as int, bytes_per_pixel as int, pos as int, decoded as int, frame@),
        decreases pixels - decoded,
    {
        if len - pos < 1 + bytes_per_pixel {
            return Err(unexpected_eof(sat_add(pos, 1 + bytes_per_pixel), len));
        }
        let run = packets[pos] as usize;
        if run == 0 {
            return Err(invalid_data("Alias PIX RLE packet has zero run length"));
        }
        if run > pixels - decoded {
            return Err(invalid_data("Alias PIX RLE expands past frame size"));
        }
        let value = &packets[pos + 1..pos + 1 + bytes_per_pixel];
        let ghost before = frame@;
        let mut k: usize = 0;
        while k < run
            invariant
                k <= run,
                frame@ == before + repeat_bytes(value@, k as int),
            decreases run - k,
        {
            append_bytes(&mut frame, value);
            k = k + 1;
        }
        pos = pos + 1 + bytes_per_pixel;
        decoded = decoded + run;
    }
    Ok(frame)
}

/// Decodes an Alias PIX image.
pub fn alias_pix_frame(input: &[u8]) -> (r: Result<Vec<u8>>)
    ensures
        match spec_alias_pix_frame(input@) {
            Ok(f) => r is Ok && r->Ok_0@ == f,
            Err(e) => outcome(r) == Err::<Vec<u8>, Failure>(e),
        },
{
    let len = input.len();
    if len < 10 {
        return Err(unexpected_eof(10, len));
    }
    if input[4] != 0 || input[5] != 0 || input[6] != 0 || input[7] != 0 {
        return Err(invalid_data("missing Alias PIX reserved header bytes"));
    }
    let width = be16(input, 0) as usize;
    let height = be16(input, 2) as usize;
    if width == 0 || height == 0 {
        return Err(invalid_data("Alias PIX dimensions must be nonzero"));
    }
    let bits = be16(input, 8);
    let bytes_per_pixel: usize = if bits == 8 {
        1
    } else if bits == 24 {
        3
    } else {
        return Err(RmpegError::Unsupported(with_number("unsupported Alias PIX bit depth ", bits as u64)));
    };
    let pixels = match width.checked_mul(height) { Some(p) => p, None => return Err(invalid_data("Alias PIX pixel count overflow")) };
    if pixels.checked_mul(bytes_per_pixel).is_none() {
        return Err(invalid_data("Alias PIX frame size overflow"));
    }
    alias_pix_rle_frame(&input[10..len], pixels, bytes_per_pixel)
}

/// The frame-checksum listing of an Alias PIX image: one frame.
pub fn alias_pix_image_frame_hashes(input: &[u8]) -> (r: Result<Vec<AudioFrameHash>>)
    ensures
        listing_outcome(r) == single_listing(spec_alias_pix_frame(input@)),
{
    match alias_pix_frame(input) {
        Ok(frame) => Ok(single_frame_listing(&frame)),
        Err(e) => Err(e),
    }
}

} // verus!
