use vstd::prelude::*;
use crate::bytes::{as_signed32, be16, be32, sat, sat_add, first_tag, find_tag, wide_mul, has_tag, le16, le32, read_outcome16, read_outcome32, read_outcome_i32, read_result, tag_at, to_i32, u16_be, u16_le, u32_be, u32_le};
use crate::error::{eof, failure, invalid_data, unexpected_eof, Failure, Result};
use crate::metadata::{audio_stream, probe_outcome, secs, video_stream, Probe, ProbeDocument, Seconds, StreamMetadata};

verus! {

/// Whether `b` starts with "DEXA" and is at least 15 bytes long.
pub open spec fn dxa_magic(b: Seq<u8>) -> bool {
    b.len() >= 15 && has_tag(b, 0, seq![0x44u8, 0x45, 0x58, 0x41])
}

/// The frame period of a DXA header: the magnitude of the signed word at 7.
pub open spec fn dxa_ticks(b: Seq<u8>) -> int {
    let v = as_signed32(u32_be(b, 7));
    if v < 0 { -v } else { v }
}

/// The DXA picture height: halved when flag 0x40 marks interlaced storage.
pub open spec fn dxa_height(b: Seq<u8>) -> int {
    if b[4] & 0x40 != 0 { u16_be(b, 13) / 2 } else { u16_be(b, 13) }
}

/// The MS ADPCM audio stream of the WAVE file embedded after a DXA header, if any.
pub open spec fn dxa_wave(b: Seq<u8>, index: int, duration: Seconds)
    -> core::result::Result<Option<StreamMetadata>, Failure>
{
    if !has_tag(b, 15, seq![0x57u8, 0x41, 0x56, 0x45]) {
        Ok(None)
    } else {
        match first_tag(b, seq![0x52u8, 0x49, 0x46, 0x46]) {
            None => Ok(None),
            Some(riff) => if !has_tag(b, riff + 8, seq![0x57u8, 0x41, 0x56, 0x45]) {
                Ok(None)
            } else {
                match first_tag(b.subrange(riff + 12, b.len() as int), seq![0x66u8, 0x6d, 0x74, 0x20]) {
                    None => Ok(None),
                    Some(f) => {
                        let chunk = riff + 12 + f;
                        let start = chunk + 8;
                        if chunk + 8 > b.len() {
                            Err(eof(sat(chunk + 8), b.len() as int))
                        } else if u32_le(b, chunk + 4) < 16 || start + 16 > b.len() {
                            Ok(None)
                        } else if u16_le(b, start) != 2 || u16_le(b, start + 2) == 0 || u32_le(b, start + 4) == 0 {
                            Ok(None)
                        } else {
                            Ok(Some(audio_stream(index, "adpcm_ms", u32_le(b, start + 4), u16_le(b, start + 2),
                                u16_le(b, start + 14), duration)))
                        }
                    },
                }
            },
        }
    }
}

/// The probe of a DXA file.
pub open spec fn spec_parse_dxa(b: Seq<u8>) -> core::result::Result<Probe, Failure> {
    let duration = secs(u16_be(b, 5) * dxa_ticks(b), 100000);
    let video = video_stream(0, "dxa", u16_be(b, 11), dxa_height(b), Some(duration), None);
    if !dxa_magic(b) || u16_be(b, 5) == 0 || dxa_ticks(b) == 0 || u16_be(b, 11) == 0 || dxa_height(b) == 0 {
        Err(Failure::InvalidData)
    } else {
        match dxa_wave(b, 1, duration) {
            Err(e) => Err(e),
            Ok(None) => Ok(Probe { format: "dxa", streams: seq![video] }),
            Ok(Some(a)) => Ok(Probe { format: "dxa", streams: seq![video, a] }),
        }
    }
}

/// Probes a DXA file and the WAVE audio it may embed.
pub fn parse_dxa(bytes: &[u8]) -> (r: Result<ProbeDocument>)
    ensures
        probe_outcome(r) == spec_parse_dxa(bytes@),
{
    if !looks_like_dxa(bytes) {
        return Err(invalid_data("missing DXA header"));
    }
    let flags = bytes[4];
    let frames = match read_u16_be(bytes, 5) {
        Ok(v) => v,
        Err(e) => return Err(e),
    } as u32;
    let raw_ticks = match read_i32_be(bytes, 7) {
        Ok(v) => v,
        Err(e) => return Err(e),
    };
    let frame_ticks: u32 = if raw_ticks < 0 {
        if raw_ticks == i32::MIN { 0x8000_0000 } else { (-raw_ticks) as u32 }
    } else {
        raw_ticks as u32
    };
    let width = match read_u16_be(bytes, 11) {
        Ok(v) => v,
        Err(e) => return Err(e),
    } as u32;
    let mut height = match read_u16_be(bytes, 13) {
        Ok(v) => v,
        Err(e) => return Err(e),
    } as u32;
    if flags & 0x40 != 0 {
        height = height / 2;
    }
    if frames == 0 || frame_ticks == 0 || width == 0 || height == 0 {
        return Err(invalid_data("invalid DXA video metadata"));
    }
    let duration = Seconds { num: wide_mul(frames as u64, frame_ticks as u64), den: 100000 };
    let video = StreamMetadata::video(0, "dxa", width, height, Some(duration), None);
    match match parse_embedded_wave(bytes, 1, duration) {
        Ok(v) => v,
        Err(e) => return Err(e),
    } {
        Some(audio) => Ok(ProbeDocument::pair("dxa", video, audio)),
        None => Ok(ProbeDocument::single("dxa", video)),
    }
}

/// Whether `bytes` looks like a DXA file.
pub fn looks_like_dxa(bytes: &[u8]) -> (r: bool)
    ensures
        r == dxa_magic(bytes@),
{
    bytes.len() >= 15 && tag_at(bytes, 0, &[0x44u8, 0x45, 0x58, 0x41])
}

fn parse_embedded_wave(bytes: &[u8], index: usize, duration: Seconds) -> (r: Result<Option<StreamMetadata>>)
    ensures
        match r {
            Ok(o) => dxa_wave(bytes@, index as int, duration) == Ok::<Option<StreamMetadata>, Failure>(o),
            Err(e) => dxa_wave(bytes@, index as int, duration) == Err::<Option<StreamMetadata>, Failure>(failure(e)),
        },
{
    let len = bytes.len();
    assert(bytes@.len() == len);
    if !tag_at(bytes, 15, &[0x57u8, 0x41, 0x56, 0x45]) {
        return Ok(None);
    }
    let riff_pos = match find_bytes(bytes, &[0x52u8, 0x49, 0x46, 0x46]) {
        Some(p) => p,
        None => return Ok(None),
    };
    if riff_pos > usize::MAX - 12 || !tag_at(bytes, riff_pos + 8, &[0x57u8, 0x41, 0x56, 0x45]) {
        return Ok(None);
    }
    let rest = &bytes[riff_pos + 12..bytes.len()];
    let fmt_pos = match find_bytes(rest, &[0x66u8, 0x6d, 0x74, 0x20]) {
        Some(p) => p,
        None => return Ok(None),
    };
    let fmt_chunk = riff_pos + 12 + fmt_pos;
    if bytes.len() - fmt_chunk < 8 {
        return Err(unexpected_eof(sat_add(fmt_chunk, 8), bytes.len()));
    }
    let chunk_size = match read_u32_le(bytes, fmt_chunk + 4) {
        Ok(v) => v,
        Err(e) => return Err(e),
    };
    let data_start = fmt_chunk + 8;
    if chunk_size < 16 || bytes.len() - data_start < 16 {
        return Ok(None);
    }
    let format_tag = match read_u16_le(bytes, data_start) {
        Ok(v) => v,
        Err(e) => return Err(e),
    };
    let channels = match read_u16_le(bytes, data_start + 2) {
        Ok(v) => v,
        Err(e) => return Err(e),
    };
    let sample_rate = match read_u32_le(bytes, data_start + 4) {
        Ok(v) => v,
        Err(e) => return Err(e),
    };
    let bits_per_sample = match read_u16_le(bytes, data_start + 14) {
        Ok(v) => v,
        Err(e) => return Err(e),
    };
    if format_tag != 0x0002 || channels == 0 || sample_rate == 0 {
        return Ok(None);
    }
    Ok(Some(StreamMetadata::audio(index, "adpcm_ms", sample_rate, channels, bits_per_sample, duration)))
}

fn find_bytes(haystack: &[u8], needle: &[u8]) -> (r: Option<usize>)
    requires
        needle@.len() > 0,
    ensures
        match r {
            Some(p) => first_tag(haystack@, needle@) == Some(p as int),
            None => first_tag(haystack@, needle@) is None,
        },
{
    find_tag(haystack, needle)
}

fn read_i32_be(bytes: &[u8], offset: usize) -> (r: Result<i32>)
    requires
        offset <= usize::MAX - 4,
    ensures
        read_outcome_i32(r) == read_result(bytes@, offset as int, 4, as_signed32(u32_be(bytes@, offset as int))),
{
    if offset + 4 > bytes.len() {
        return Err(unexpected_eof(offset + 4, bytes.len()));
    }
    Ok(to_i32(be32(bytes, offset)))
}

fn read_u16_be(bytes: &[u8], offset: usize) -> (r: Result<u16>)
    requires
        offset <= usize::MAX - 2,
    ensures
        read_outcome16(r) == read_result(bytes@, offset as int, 2, u16_be(bytes@, offset as int)),
{
    if offset + 2 > bytes.len() {
        return Err(unexpected_eof(offset + 2, bytes.len()));
    }
    Ok(be16(bytes, offset))
}

fn read_u16_le(bytes: &[u8], offset: usize) -> (r: Result<u16>)
    requires
        offset <= usize::MAX - 2,
    ensures
        read_outcome16(r) == read_result(bytes@, offset as int, 2, u16_le(bytes@, offset as int)),
{
    if offset + 2 > bytes.len() {
        return Err(unexpected_eof(offset + 2, bytes.len()));
    }
    Ok(le16(bytes, offset))
}

fn read_u32_le(bytes: &[u8], offset: usize) -> (r: Result<u32>)
    requires
        offset <= usize::MAX - 4,
    ensures
        read_outcome32(r) == read_result(bytes@, offset as int, 4, u32_le(bytes@, offset as int)),
{
    if offset + 4 > bytes.len() {
        return Err(unexpected_eof(offset + 4, bytes.len()));
    }
    Ok(le32(bytes, offset))
}

} // verus!
