use vstd::prelude::*;
use crate::bytes::{has_tag, le32, read_outcome32, read_result, tag_at, u32_le};
use crate::error::{invalid_data, unexpected_eof, Failure, Result};
use crate::metadata::{audio_stream, probe_outcome, video_stream, zero_secs, zero_seconds, Probe, ProbeDocument, StreamMetadata};

verus! {

/// Whether `b` has the shape of an Id CIN header: 320 or 640 wide, 200, 240 or 480
/// high, 8000 to 48000 Hz, one or two channels, then 00 44 00 00.
pub open spec fn idcin_shape(b: Seq<u8>) -> bool {
    &&& b.len() >= 20
    &&& u32_le(b, 0) == 320 || u32_le(b, 0) == 640
    &&& u32_le(b, 4) == 200 || u32_le(b, 4) == 240 || u32_le(b, 4) == 480
    &&& 8000 <= u32_le(b, 8) <= 48000
    &&& 1 <= u32_le(b, 12) <= 2
    &&& has_tag(b, 20, seq![0x00u8, 0x44, 0x00, 0x00])
}

/// The probe of an Id CIN file.
pub open spec fn spec_parse_idcin(b: Seq<u8>) -> core::result::Result<Probe, Failure> {
    if !idcin_shape(b) {
        Err(Failure::InvalidData)
    } else {
        Ok(Probe {
            format: "idcin",
            streams: seq![
                video_stream(0, "idcin", u32_le(b, 0), u32_le(b, 4), Some(zero_secs()), None),
                audio_stream(1, "pcm_s16le", u32_le(b, 8), u32_le(b, 12), 16, zero_secs()),
            ],
        })
    }
}

/// Probes an Id CIN file.
pub fn parse_idcin(bytes: &[u8]) -> (r: Result<ProbeDocument>)
    ensures
        probe_outcome(r) == spec_parse_idcin(bytes@),
{
    if !looks_like_idcin(bytes) {
        return Err(invalid_data("missing Id CIN header"));
    }
    let width = match read_u32_le(bytes, 0) {
        Ok(v) => v,
        Err(e) => return Err(e),
    };
    let height = match read_u32_le(bytes, 4) {
        Ok(v) => v,
        Err(e) => return Err(e),
    };
    let sample_rate = match read_u32_le(bytes, 8) {
        Ok(v) => v,
        Err(e) => return Err(e),
    };
    let channels = match read_u32_le(bytes, 12) {
        Ok(v) => v,
        Err(e) => return Err(e),
    };
    if width == 0 || height == 0 || sample_rate == 0 || channels == 0 || channels > 8 {
        return Err(invalid_data("invalid Id CIN metadata"));
    }
    Ok(ProbeDocument::pair(
        "idcin",
        StreamMetadata::video(0, "idcin", width, height, Some(zero_seconds()), None),
        StreamMetadata::audio(1, "pcm_s16le", sample_rate, channels as u16, 16, zero_seconds()),
    ))
}

/// Whether `bytes` has the shape of an Id CIN header.
pub fn looks_like_idcin(bytes: &[u8]) -> (r: bool)
    ensures
        r == idcin_shape(bytes@),
{
    if bytes.len() < 20 {
        return false;
    }
    let width = match read_u32_le(bytes, 0) { Ok(v) => v, Err(_) => return false };
    let height = match read_u32_le(bytes, 4) { Ok(v) => v, Err(_) => return false };
    let sample_rate = match read_u32_le(bytes, 8) { Ok(v) => v, Err(_) => return false };
    let channels = match read_u32_le(bytes, 12) { Ok(v) => v, Err(_) => return false };
    (width == 320 || width == 640) && (height == 200 || height == 240 || height == 480)
        && 8000 <= sample_rate && sample_rate <= 48000 && 1 <= channels && channels <= 2
        && tag_at(bytes, 20, &[0x00u8, 0x44, 0x00, 0x00])
}

fn read_u32_le(bytes: &[u8], offset: usize) -> (r: Result<u32>)
    requires
        offset <= usize::MAX - 4,
    ensures
        read_outcome32(r) == read_result(bytes@, offset as int, 4, u32_le(bytes@, offset as int)),
{
    if offset + 4 > bytes.len() {
        return Err(unexpected_eof(offset + 4, bytes.len()));
    }
    Ok(le32(bytes, offset))
}

} // verus!
