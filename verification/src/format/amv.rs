use vstd::prelude::*;
use crate::bytes::{has_tag, le32, read_outcome32, read_result, tag_at, u32_le};
use crate::error::{invalid_data, unexpected_eof, Failure, Result};
use crate::metadata::{audio_stream, probe_outcome, video_stream, zero_secs, zero_seconds, Probe, ProbeDocument, StreamMetadata};

verus! {

/// Whether `b` is a RIFF file of form "AMV " at least 0x58 bytes long.
pub open spec fn amv_magic(b: Seq<u8>) -> bool {
    b.len() >= 0x58 && has_tag(b, 0, seq![0x52u8, 0x49, 0x46, 0x46]) && has_tag(b, 8, seq![0x41u8, 0x4d, 0x56, 0x20])
}

/// The probe of an AMV file: dimensions at 0x40 and 0x44.
pub open spec fn spec_parse_amv(b: Seq<u8>) -> core::result::Result<Probe, Failure> {
    if !amv_magic(b) || u32_le(b, 0x40) == 0 || u32_le(b, 0x44) == 0 {
        Err(Failure::InvalidData)
    } else {
        Ok(Probe {
            format: "avi",
            streams: seq![
                video_stream(0, "amv", u32_le(b, 0x40), u32_le(b, 0x44), Some(zero_secs()), None),
                audio_stream(1, "adpcm_ima_amv", 22050, 1, 4, zero_secs()),
            ],
        })
    }
}

/// Probes an AMV file.
pub fn parse_amv(bytes: &[u8]) -> (r: Result<ProbeDocument>)
    ensures
        probe_outcome(r) == spec_parse_amv(bytes@),
{
    if !looks_like_amv(bytes) {
        return Err(invalid_data("missing AMV header"));
    }
    let width = match read_u32_le(bytes, 0x40) {
        Ok(v) => v,
        Err(e) => return Err(e),
    };
    let height = match read_u32_le(bytes, 0x44) {
        Ok(v) => v,
        Err(e) => return Err(e),
    };
    if width == 0 || height == 0 {
        return Err(invalid_data("invalid AMV dimensions"));
    }
    Ok(ProbeDocument::pair(
        "avi",
        StreamMetadata::video(0, "amv", width, height, Some(zero_seconds()), None),
        StreamMetadata::audio(1, "adpcm_ima_amv", 22050, 1, 4, zero_seconds()),
    ))
}

/// Whether `bytes` looks like an AMV file.
pub fn looks_like_amv(bytes: &[u8]) -> (r: bool)
    ensures
        r == amv_magic(bytes@),
{
    bytes.len() >= 0x58 && tag_at(bytes, 0, &[0x52u8, 0x49, 0x46, 0x46]) && tag_at(bytes, 8, &[0x41u8, 0x4d, 0x56, 0x20])
}

fn read_u32_le(bytes: &[u8], offset: usize) -> (r: Result<u32>)
    requires
        offset <= usize::MAX - 4,
    ensures
        read_outcome32(r) == read_result(bytes@, offset as int, 4, u32_le(bytes@, offset as int)),
{
    if offset + 4 > bytes.len() {
        return Err(unexpected_eof(offset + 4, bytes.len()));
    }
    Ok(le32(bytes, offset))
}

} // verus!
