use vstd::prelude::*;
use crate::bytes::{has_tag, le16, read_outcome16, read_result, tag_at, u16_le};
use crate::error::{eof, invalid_data, unexpected_eof, Failure, Result};
use crate::metadata::{audio_stream, probe_outcome, video_stream, zero_secs, zero_seconds, Probe, ProbeDocument, StreamMetadata};

verus! {

/// Whether `b` starts with "VID\0".
pub open spec fn bethsoftvid_magic(b: Seq<u8>) -> bool {
    has_tag(b, 0, seq![0x56u8, 0x49, 0x44, 0x00])
}

/// The probe of a Bethesda VID file: little-endian dimensions at 7 and 9.
pub open spec fn spec_parse_bethsoftvid(b: Seq<u8>) -> core::result::Result<Probe, Failure> {
    if !bethsoftvid_magic(b) {
        Err(Failure::InvalidData)
    } else if b.len() < 11 {
        Err(eof(11, b.len() as int))
    } else if u16_le(b, 7) == 0 || u16_le(b, 9) == 0 {
        Err(Failure::InvalidData)
    } else {
        Ok(Probe {
            format: "bethsoftvid",
            streams: seq![
                audio_stream(0, "pcm_u8", 11111, 1, 8, zero_secs()),
                video_stream(1, "bethsoftvid", u16_le(b, 7), u16_le(b, 9), Some(zero_secs()), None),
            ],
        })
    }
}

/// Probes a Bethesda VID file.
pub fn parse_bethsoftvid(bytes: &[u8]) -> (r: Result<ProbeDocument>)
    ensures
        probe_outcome(r) == spec_parse_bethsoftvid(bytes@),
{
    if !looks_like_bethsoftvid(bytes) {
        return Err(invalid_data("missing Bethesda VID signature"));
    }
    if bytes.len() < 11 {
        return Err(unexpected_eof(11, bytes.len()));
    }
    let width = match read_u16_le(bytes, 7) {
        Ok(v) => v,
        Err(e) => return Err(e),
    } as u32;
    let height = match read_u16_le(bytes, 9) {
        Ok(v) => v,
        Err(e) => return Err(e),
    } as u32;
    if width == 0 || height == 0 {
        return Err(invalid_data("Bethesda VID dimensions must be nonzero"));
    }
    Ok(ProbeDocument::pair(
        "bethsoftvid",
        StreamMetadata::audio(0, "pcm_u8", 11111, 1, 8, zero_seconds()),
        StreamMetadata::video(1, "bethsoftvid", width, height, Some(zero_seconds()), None),
    ))
}

/// Whether `bytes` starts with "VID\0".
pub fn looks_like_bethsoftvid(bytes: &[u8]) -> (r: bool)
    ensures
        r == bethsoftvid_magic(bytes@),
{
    tag_at(bytes, 0, &[0x56u8, 0x49, 0x44, 0x00])
}

fn read_u16_le(bytes: &[u8], offset: usize) -> (r: Result<u16>)
    requires
        offset <= usize::MAX - 2,
    ensures
        read_outcome16(r) == read_result(bytes@, offset as int, 2, u16_le(bytes@, offset as int)),
{
    if offset + 2 > bytes.len() {
        return Err(unexpected_eof(offset + 2, bytes.len()));
    }
    Ok(le16(bytes, offset))
}

} // verus!
