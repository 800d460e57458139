use vstd::prelude::*;
use crate::bytes::{has_tag, le32, read_outcome32, read_result, tag_at, u32_le};
use crate::error::{invalid_data, unexpected_eof, Failure, Result};
use crate::metadata::{audio_stream, probe_outcome, secs, video_stream, zero_secs, zero_seconds, Probe, ProbeDocument, Seconds, StreamMetadata};

verus! {

/// Whether `b` is a "BF&I" file of at least 0x34 bytes.
pub open spec fn bfi_magic(b: Seq<u8>) -> bool {
    b.len() >= 0x34 && has_tag(b, 0, seq![0x42u8, 0x46, 0x26, 0x49])
}

/// The probe of a BFI file: frame count, rate and dimensions from the header.
pub open spec fn spec_parse_bfi(b: Seq<u8>) -> core::result::Result<Probe, Failure> {
    if !bfi_magic(b) || u32_le(b, 0x0c) == 0 || u32_le(b, 0x1c) == 0 || u32_le(b, 0x2c) == 0
        || u32_le(b, 0x30) == 0 {
        Err(Failure::InvalidData)
    } else {
        Ok(Probe {
            format: "bfi",
            streams: seq![
                video_stream(0, "bfi", u32_le(b, 0x2c), u32_le(b, 0x30),
                    Some(secs(u32_le(b, 0x0c), u32_le(b, 0x1c))), None),
                audio_stream(1, "pcm_u8", 11025, 1, 8, zero_secs()),
            ],
        })
    }
}

/// Probes a BFI file.
pub fn parse_bfi(bytes: &[u8]) -> (r: Result<ProbeDocument>)
    ensures
        probe_outcome(r) == spec_parse_bfi(bytes@),
{
    if !looks_like_bfi(bytes) {
        return Err(invalid_data("missing BFI header"));
    }
    let frames = match read_u32_le(bytes, 0x0c) {
        Ok(v) => v,
        Err(e) => return Err(e),
    };
    let fps = match read_u32_le(bytes, 0x1c) {
        Ok(v) => v,
        Err(e) => return Err(e),
    };
    let width = match read_u32_le(bytes, 0x2c) {
        Ok(v) => v,
        Err(e) => return Err(e),
    };
    let height = match read_u32_le(bytes, 0x30) {
        Ok(v) => v,
        Err(e) => return Err(e),
    };
    if frames == 0 || fps == 0 || width == 0 || height == 0 {
        return Err(invalid_data("invalid BFI metadata"));
    }
    let duration = Seconds { num: frames as u128, den: fps as u128 };
    Ok(ProbeDocument::pair(
        "bfi",
        StreamMetadata::video(0, "bfi", width, height, Some(duration), None),
        StreamMetadata::audio(1, "pcm_u8", 11025, 1, 8, zero_seconds()),
    ))
}

/// Whether `bytes` looks like a BFI file.
pub fn looks_like_bfi(bytes: &[u8]) -> (r: bool)
    ensures
        r == bfi_magic(bytes@),
{
    bytes.len() >= 0x34 && tag_at(bytes, 0, &[0x42u8, 0x46, 0x26, 0x49])
}

fn read_u32_le(bytes: &[u8], offset: usize) -> (r: Result<u32>)
    requires
        offset <= usize::MAX - 4,
    ensures
        read_outcome32(r) == read_result(bytes@, offset as int, 4, u32_le(bytes@, offset as int)),
{
    if offset + 4 > bytes.len() {
        return Err(unexpected_eof(offset + 4, bytes.len()));
    }
    Ok(le32(bytes, offset))
}

} // verus!
