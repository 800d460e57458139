use vstd::prelude::*;
use crate::bytes::{as_signed32, has_tag, le16, le32, read_outcome16, read_outcome32, read_outcome_i32, read_result, tag_at, to_i32, u16_le, u32_le};
use crate::error::{eof, invalid_data, unexpected_eof, unsupported, Failure, Result, RmpegError};
use crate::metadata::{probe_outcome, video_stream, zero_secs, zero_seconds, Probe, ProbeDocument, StreamMetadata};
use crate::error::{decimal_chars, with_number, with_signed};

verus! {

/// Whether `dib` is a DIB header size whose dimensions are signed 32-bit words.
pub open spec fn bmp_long_header(dib: int) -> bool {
    dib == 40 || dib == 52 || dib == 56 || dib == 64 || dib == 108 || dib == 124
}

/// The probe of a BMP image.
pub open spec fn spec_parse_bmp(b: Seq<u8>) -> core::result::Result<Probe, Failure> {
    let dib = u32_le(b, 14);
    let w = as_signed32(u32_le(b, 18));
    let h = as_signed32(u32_le(b, 22));
    let habs = if h < 0 { -h } else { h };
    if b.len() < 26 {
        Err(eof(26, b.len() as int))
    } else if !has_tag(b, 0, seq![0x42u8, 0x4d]) {
        Err(Failure::InvalidData)
    } else if dib == 12 {
        if u16_le(b, 18) == 0 || u16_le(b, 20) == 0 {
            Err(Failure::InvalidData)
        } else {
            Ok(Probe {
                format: "bmp_pipe",
                streams: seq![video_stream(0, "bmp", u16_le(b, 18), u16_le(b, 20), Some(zero_secs()), None)],
            })
        }
    } else if bmp_long_header(dib) {
        if w <= 0 || h == -0x8000_0000 || h == 0 {
            Err(Failure::InvalidData)
        } else {
            Ok(Probe {
                format: "bmp_pipe",
                streams: seq![video_stream(0, "bmp", w, habs, Some(zero_secs()), None)],
            })
        }
    } else {
        Err(Failure::InvalidData)
    }
}

/// Probes a BMP image; a top-down image reports its height as positive.
pub fn parse_bmp(bytes: &[u8]) -> (r: Result<ProbeDocument>)
    ensures
        probe_outcome(r) == spec_parse_bmp(bytes@),
        bytes@.len() >= 26 && has_tag(bytes@, 0, seq![0x42u8, 0x4d]) && u32_le(bytes@, 14) != 12
            && !bmp_long_header(u32_le(bytes@, 14)) ==> (r matches Err(RmpegError::InvalidData(m))
            && m@ == "unsupported BMP DIB header size "@ + decimal_chars(u32_le(bytes@, 14) as nat)),
{
    if bytes.len() < 26 {
        return Err(unexpected_eof(26, bytes.len()));
    }
    if !tag_at(bytes, 0, &[0x42u8, 0x4d]) {
        return Err(invalid_data("missing BMP signature"));
    }
    let dib_size = match read_u32_le(bytes, 14) {
        Ok(v) => v,
        Err(e) => return Err(e),
    };
    let (width, height): (u32, u32) = if dib_size == 12 {
        let w = match read_u16_le(bytes, 18) {
        Ok(v) => v,
        Err(e) => return Err(e),
    } as u32;
        let h = match read_u16_le(bytes, 20) {
        Ok(v) => v,
        Err(e) => return Err(e),
    } as u32;
        (w, h)
    } else if dib_size == 40 || dib_size == 52 || dib_size == 56 || dib_size == 64 || dib_size == 108
        || dib_size == 124 {
        let w = match read_i32_le(bytes, 18) {
        Ok(v) => v,
        Err(e) => return Err(e),
    };
        let h = match read_i32_le(bytes, 22) {
        Ok(v) => v,
        Err(e) => return Err(e),
    };
        if w <= 0 {
            return Err(RmpegError::InvalidData(with_signed("invalid BMP width ", w as i64)));
        }
        if h == i32::MIN {
            return Err(invalid_data("invalid BMP height"));
        }
        let habs: u32 = if h < 0 { (-h) as u32 } else { h as u32 };
        (w as u32, habs)
    } else {
        return Err(RmpegError::InvalidData(with_number("unsupported BMP DIB header size ", dib_size as u64)));
    };
    if width == 0 || height == 0 {
        return Err(invalid_data("BMP dimensions must be nonzero"));
    }
    Ok(ProbeDocument::single("bmp_pipe", StreamMetadata::video(0, "bmp", width, height, Some(zero_seconds()), None)))
}

/// Whether `bytes` starts with "BM".
pub fn looks_like_bmp(bytes: &[u8]) -> (r: bool)
    ensures
        r == has_tag(bytes@, 0, seq![0x42u8, 0x4d]),
{
    tag_at(bytes, 0, &[0x42u8, 0x4d])
}

fn read_u16_le(bytes: &[u8], offset: usize) -> (r: Result<u16>)
    requires
        offset <= usize::MAX - 2,
    ensures
        read_outcome16(r) == read_result(bytes@, offset as int, 2, u16_le(bytes@, offset as int)),
{
    if offset + 2 > bytes.len() {
        return Err(unexpected_eof(offset + 2, bytes.len()));
    }
    Ok(le16(bytes, offset))
}

fn read_u32_le(bytes: &[u8], offset: usize) -> (r: Result<u32>)
    requires
        offset <= usize::MAX - 4,
    ensures
        read_outcome32(r) == read_result(bytes@, offset as int, 4, u32_le(bytes@, offset as int)),
{
    if offset + 4 > bytes.len() {
        return Err(unexpected_eof(offset + 4, bytes.len()));
    }
    Ok(le32(bytes, offset))
}

fn read_i32_le(bytes: &[u8], offset: usize) -> (r: Result<i32>)
    requires
        offset <= usize::MAX - 4,
    ensures
        read_outcome_i32(r) == read_result(bytes@, offset as int, 4, as_signed32(u32_le(bytes@, offset as int))),
{
    if offset + 4 > bytes.len() {
        return Err(unexpected_eof(offset + 4, bytes.len()));
    }
    Ok(to_i32(le32(bytes, offset)))
}

} // verus!
