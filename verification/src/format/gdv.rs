use vstd::prelude::*;
use crate::bytes::{has_tag, le16, read_outcome16, read_result, tag_at, u16_le};
use crate::error::{invalid_data, unexpected_eof, Failure, Result};
use crate::metadata::{audio_stream, probe_outcome, secs, video_stream, zero_secs, zero_seconds, Probe, ProbeDocument, Seconds, StreamMetadata};

verus! {

/// Whether `b` starts with the GDV signature 94 19 11 29, at least 24 bytes long.
pub open spec fn gdv_magic(b: Seq<u8>) -> bool {
    b.len() >= 24 && has_tag(b, 0, seq![0x94u8, 0x19, 0x11, 0x29])
}

/// The probe of a Gremlin Digital Video file.
pub open spec fn spec_parse_gdv(b: Seq<u8>) -> core::result::Result<Probe, Failure> {
    let video = video_stream(0, "gdv", u16_le(b, 20), u16_le(b, 22), Some(secs(u16_le(b, 6), u16_le(b, 8))), None);
    if !gdv_magic(b) || u16_le(b, 6) == 0 || u16_le(b, 8) == 0 || u16_le(b, 20) == 0 || u16_le(b, 22) == 0 {
        Err(Failure::InvalidData)
    } else if u16_le(b, 10) != 0 && u16_le(b, 12) != 0 && b[19] != 0 {
        Ok(Probe {
            format: "gdv",
            streams: seq![video, audio_stream(1, "gremlin_dpcm", u16_le(b, 12), b[19] as int, 0, zero_secs())],
        })
    } else {
        Ok(Probe { format: "gdv", streams: seq![video] })
    }
}

/// Probes a GDV file; the audio stream is reported when its tag, rate and channels are set.
pub fn parse_gdv(bytes: &[u8]) -> (r: Result<ProbeDocument>)
    ensures
        probe_outcome(r) == spec_parse_gdv(bytes@),
{
    if !looks_like_gdv(bytes) {
        return Err(invalid_data("missing GDV header"));
    }
    let frames = match read_u16_le(bytes, 6) {
        Ok(v) => v,
        Err(e) => return Err(e),
    } as u32;
    let fps = match read_u16_le(bytes, 8) {
        Ok(v) => v,
        Err(e) => return Err(e),
    } as u32;
    let width = match read_u16_le(bytes, 20) {
        Ok(v) => v,
        Err(e) => return Err(e),
    } as u32;
    let height = match read_u16_le(bytes, 22) {
        Ok(v) => v,
        Err(e) => return Err(e),
    } as u32;
    if frames == 0 || fps == 0 || width == 0 || height == 0 {
        return Err(invalid_data("invalid GDV video metadata"));
    }
    let duration = Seconds { num: frames as u128, den: fps as u128 };
    let video = StreamMetadata::video(0, "gdv", width, height, Some(duration), None);
    let audio_tag = match read_u16_le(bytes, 10) {
        Ok(v) => v,
        Err(e) => return Err(e),
    };
    let sample_rate = match read_u16_le(bytes, 12) {
        Ok(v) => v,
        Err(e) => return Err(e),
    } as u32;
    let channels = bytes[19] as u16;
    if audio_tag != 0 && sample_rate != 0 && channels != 0 {
        return Ok(ProbeDocument::pair(
            "gdv",
            video,
            StreamMetadata::audio(1, "gremlin_dpcm", sample_rate, channels, 0, zero_seconds()),
        ));
    }
    Ok(ProbeDocument::single("gdv", video))
}

/// Whether `bytes` looks like a GDV file.
pub fn looks_like_gdv(bytes: &[u8]) -> (r: bool)
    ensures
        r == gdv_magic(bytes@),
{
    bytes.len() >= 24 && tag_at(bytes, 0, &[0x94u8, 0x19, 0x11, 0x29])
}

fn read_u16_le(bytes: &[u8], offset: usize) -> (r: Result<u16>)
    requires
        offset <= usize::MAX - 2,
    ensures
        read_outcome16(r) == read_result(bytes@, offset as int, 2, u16_le(bytes@, offset as int)),
{
    if offset + 2 > bytes.len() {
        return Err(unexpected_eof(offset + 2, bytes.len()));
    }
    Ok(le16(bytes, offset))
}

} // verus!
