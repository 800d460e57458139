use vstd::prelude::*;
use crate::bytes::{wide_mul, has_tag, le16, le32, read_outcome16, read_outcome32, read_result, tag_at, u16_le, u32_le};
use crate::error::{invalid_data, unexpected_eof, Failure, Result};
use crate::metadata::{audio_stream, probe_outcome, secs, video_stream, zero_secs, zero_seconds, Probe, ProbeDocument, Seconds, StreamMetadata};

verus! {

/// Whether `b` starts with "BIK" and a letter, at least 44 bytes long.
pub open spec fn bink_magic(b: Seq<u8>) -> bool {
    b.len() >= 44 && has_tag(b, 0, seq![0x42u8, 0x49, 0x4b]) && ((0x41 <= b[3] <= 0x5a) || (0x61 <= b[3] <= 0x7a))
}

/// The first audio track a Bink header describes, when it has one that can be read.
pub open spec fn bink_audio(b: Seq<u8>, index: int) -> Option<StreamMetadata> {
    if b.len() >= 52 && u16_le(b, 48) != 0 {
        Some(audio_stream(
            index,
            if b[51] & 0x80 != 0 { "binkaudio_rdft" } else { "binkaudio_dct" },
            u16_le(b, 48),
            if b[51] & 0x20 != 0 { 2 } else { 1 },
            0,
            zero_secs(),
        ))
    } else {
        None
    }
}

/// The probe of a Bink file.
pub open spec fn spec_parse_bink(b: Seq<u8>) -> core::result::Result<Probe, Failure> {
    let video = video_stream(0, "binkvideo", u32_le(b, 20), u32_le(b, 24),
        Some(secs(u32_le(b, 8) * u32_le(b, 32), u32_le(b, 28))), None);
    if !bink_magic(b) || u32_le(b, 8) == 0 || u32_le(b, 20) == 0 || u32_le(b, 24) == 0
        || u32_le(b, 28) == 0 || u32_le(b, 32) == 0 {
        Err(Failure::InvalidData)
    } else if u32_le(b, 40) > 0 && bink_audio(b, 1) is Some {
        Ok(Probe { format: "bink", streams: seq![video, bink_audio(b, 1)->0] })
    } else {
        Ok(Probe { format: "bink", streams: seq![video] })
    }
}

/// Probes a Bink file: one video stream and at most one audio track.
pub fn parse_bink(bytes: &[u8]) -> (r: Result<ProbeDocument>)
    ensures
        probe_outcome(r) == spec_parse_bink(bytes@),
{
    if !looks_like_bink(bytes) {
        return Err(invalid_data("missing Bink header"));
    }
    let frame_count = match read_u32(bytes, 8) {
        Ok(v) => v,
        Err(e) => return Err(e),
    };
    let width = match read_u32(bytes, 20) {
        Ok(v) => v,
        Err(e) => return Err(e),
    };
    let height = match read_u32(bytes, 24) {
        Ok(v) => v,
        Err(e) => return Err(e),
    };
    let fps_num = match read_u32(bytes, 28) {
        Ok(v) => v,
        Err(e) => return Err(e),
    };
    let fps_den = match read_u32(bytes, 32) {
        Ok(v) => v,
        Err(e) => return Err(e),
    };
    if frame_count == 0 || width == 0 || height == 0 || fps_num == 0 || fps_den == 0 {
        return Err(invalid_data("invalid Bink stream metadata"));
    }
    let duration = Seconds { num: wide_mul(frame_count as u64, fps_den as u64), den: fps_num as u128 };
    let video = StreamMetadata::video(0, "binkvideo", width, height, Some(duration), None);
    let audio_tracks = match read_u32(bytes, 40) {
        Ok(v) => v,
        Err(_) => 0,
    };
    if audio_tracks > 0 {
        if let Some(audio) = parse_first_audio_track(bytes, 1) {
            return Ok(ProbeDocument::pair("bink", video, audio));
        }
    }
    Ok(ProbeDocument::single("bink", video))
}

/// Whether `bytes` starts with "BIK" and a letter.
pub fn looks_like_bink(bytes: &[u8]) -> (r: bool)
    ensures
        r == bink_magic(bytes@),
{
    bytes.len() >= 44 && tag_at(bytes, 0, &[0x42u8, 0x49, 0x4b]) && ((0x41 <= bytes[3] && bytes[3] <= 0x5a)
        || (0x61 <= bytes[3] && bytes[3] <= 0x7a))
}

fn parse_first_audio_track(bytes: &[u8], index: usize) -> (r: Option<StreamMetadata>)
    ensures
        r == bink_audio(bytes@, index as int),
{
    let track: usize = 44;
    let sample_rate = match read_u16(bytes, track + 4) {
        Ok(v) => v as u32,
        Err(_) => return None,
    };
    if bytes.len() <= track + 7 {
        return None;
    }
    let flags = bytes[track + 7];
    if sample_rate == 0 {
        return None;
    }
    let codec = if flags & 0x80 != 0 { "binkaudio_rdft" } else { "binkaudio_dct" };
    let channels: u16 = if flags & 0x20 != 0 { 2 } else { 1 };
    Some(StreamMetadata::audio(index, codec, sample_rate, channels, 0, zero_seconds()))
}

fn read_u32(bytes: &[u8], offset: usize) -> (r: Result<u32>)
    requires
        offset <= usize::MAX - 4,
    ensures
        read_outcome32(r) == read_result(bytes@, offset as int, 4, u32_le(bytes@, offset as int)),
{
    if offset + 4 > bytes.len() {
        return Err(unexpected_eof(offset + 4, bytes.len()));
    }
    Ok(le32(bytes, offset))
}

fn read_u16(bytes: &[u8], offset: usize) -> (r: Result<u16>)
    requires
        offset <= usize::MAX - 2,
    ensures
        read_outcome16(r) == read_result(bytes@, offset as int, 2, u16_le(bytes@, offset as int)),
{
    if offset + 2 > bytes.len() {
        return Err(unexpected_eof(offset + 2, bytes.len()));
    }
    Ok(le16(bytes, offset))
}

} // verus!
