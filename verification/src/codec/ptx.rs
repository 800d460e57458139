use vstd::prelude::*;
use crate::bytes::{le16, le32, u16_le, u32_le};
use crate::error::{eof, invalid_data, outcome, unexpected_eof, unsupported, Failure, Result, RmpegError};
use crate::bytes::append_bytes;
use crate::codec::digest::{listing_outcome, single_frame_listing, single_listing};
use crate::metadata::AudioFrameHash;
use crate::error::with_number;

verus! {

/// The frame size a PTX header gives: two bytes per pixel.
pub open spec fn spec_ptx_header(b: Seq<u8>) -> core::result::Result<int, Failure> {
    let w = u16_le(b, 8);
    let h = u16_le(b, 10);
    let size = w * h * 2;
    if b.len() < 44 {
        Err(eof(44, b.len() as int))
    } else if u32_le(b, 0) != 44 {
        Err(Failure::InvalidData)
    } else if w == 0 || h == 0 {
        Err(Failure::InvalidData)
    } else if 44 + size > usize::MAX {
        Err(Failure::InvalidData)
    } else if 44 + size > b.len() {
        Err(eof(44 + size, b.len() as int))
    } else {
        Ok(size)
    }
}

/// The frame of a PTX image: the pixel data after the 44-byte header.
pub open spec fn spec_ptx_frame(b: Seq<u8>) -> core::result::Result<Seq<u8>, Failure> {
    match spec_ptx_header(b) {
        Err(e) => Err(e),
        Ok(size) => Ok(b.subrange(44, 44 + size)),
    }
}

/// Reads a PTX header: the frame size.
pub fn ptx_header(bytes: &[u8]) -> (r: Result<usize>)
    ensures
        match spec_ptx_header(bytes@) {
            Ok(size) => r == Ok::<usize, RmpegError>(size as usize) && 44 + size <= bytes@.len(),
            Err(e) => outcome(r) == Err::<usize, Failure>(e),
        },
{
    let len = bytes.len();
    if len < 44 {
        return Err(unexpected_eof(44, len));
    }
    let header_len = le32(bytes, 0);
    if header_len != 44 {
        return Err(RmpegError::InvalidData(with_number("unsupported PTX header length ", header_len as u64)));
    }
    let width = le16(bytes, 8) as usize;
    let height = le16(bytes, 10) as usize;
    if width == 0 || height == 0 {
        return Err(invalid_data("PTX dimensions must be nonzero"));
    }
    assert(width * height * 2 <= 0xffff * 0xffff * 2) by (nonlinear_arith)
        requires
            width <= 0xffff,
            height <= 0xffff,
    ;
    let size = match width.checked_mul(height) {
        Some(p) => match p.checked_mul(2) { Some(v) => v, None => return Err(invalid_data("PTX frame size overflow")) },
        None => return Err(invalid_data("PTX frame size overflow")),
    };
    if size > usize::MAX - 44 {
        return Err(invalid_data("PTX frame range overflow"));
    }
    if 44 + size > len {
        return Err(unexpected_eof(44 + size, len));
    }
    Ok(size)
}

/// The frame-checksum listing of a PTX image: one frame.
pub fn ptx_image_frame_hashes(input: &[u8]) -> (r: Result<Vec<AudioFrameHash>>)
    ensures
        listing_outcome(r) == single_listing(spec_ptx_frame(input@)),
{
    let size = match ptx_header(input) { Ok(s) => s, Err(e) => return Err(e) };
    Ok(single_frame_listing(&input[44..44 + size]))
}

} // verus!
