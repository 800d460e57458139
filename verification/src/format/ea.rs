use vstd::prelude::*;
use crate::bytes::{has_tag, le16, le32, read_outcome16, read_outcome32, read_result, tag_at, u16_le, u32_le};
use crate::error::{invalid_data, unexpected_eof, Failure, Result};
use crate::metadata::{audio_stream, probe_outcome, secs, video_stream, zero_secs, zero_seconds, Probe, ProbeDocument, Seconds, StreamMetadata};

verus! {

/// Whether `b` starts with "MVhd" or "AVP6".
pub open spec fn ea_magic(b: Seq<u8>) -> bool {
    has_tag(b, 0, seq![0x4du8, 0x56, 0x68, 0x64]) || has_tag(b, 0, seq![0x41u8, 0x56, 0x50, 0x36])
}

/// `v` rounded up to a multiple of 16, saturating.
pub open spec fn round_up_16_spec(v: int) -> int {
    (if v + 15 > u32::MAX { u32::MAX as int } else { v + 15 }) / 16 * 16
}

/// The VP6 video stream an EA video header chunk `d` describes, if it describes one.
pub open spec fn ea_video(d: Seq<u8>, index: int) -> Option<StreamMetadata> {
    if d.len() < 20 {
        None
    } else if !has_tag(d, 0, seq![0x76u8, 0x70, 0x36, 0x30]) && !has_tag(d, 0, seq![0x76u8, 0x70, 0x36, 0x31]) && !has_tag(d, 0, seq![0x00u8, 0x00, 0x00, 0x00]) {
        None
    } else {
        Some(video_stream(index, "vp6", round_up_16_spec(u16_le(d, 4)), round_up_16_spec(u16_le(d, 6)),
            Some(if u32_le(d, 16) == 0 { zero_secs() } else { secs(u32_le(d, 8) * 32768, u32_le(d, 16)) }), None))
    }
}

/// The EA audio stream a "SCHl" chunk announces.
pub open spec fn ea_audio(index: int) -> StreamMetadata {
    audio_stream(index, "adpcm_ea_r3", 32000, 2, 0, zero_secs())
}

/// The streams found walking the chunks from `pos`, appended to `acc`.
pub open spec fn ea_streams(b: Seq<u8>, pos: int, acc: Seq<StreamMetadata>) -> Seq<StreamMetadata>
    decreases b.len() - pos,
{
    let size = u32_le(b, pos + 4);
    if pos < 0 || pos + 8 > b.len() || size < 8 || pos + size > b.len() {
        acc
    } else {
        let d = b.subrange(pos + 8, pos + size);
        let acc2 = if has_tag(b, pos, seq![0x4du8, 0x56, 0x68, 0x64]) || has_tag(b, pos, seq![0x41u8, 0x56, 0x68, 0x64]) {
            match ea_video(d, acc.len() as int) {
                Some(s) => acc.push(s),
                None => acc,
            }
        } else if has_tag(b, pos, seq![0x53u8, 0x43, 0x48, 0x6c]) {
            acc.push(ea_audio(acc.len() as int))
        } else {
            acc
        };
        if pos + size + size % 2 > b.len() {
            acc2
        } else {
            ea_streams(b, pos + size + size % 2, acc2)
        }
    }
}

/// The probe of an Electronic Arts multimedia file.
pub open spec fn spec_parse_ea(b: Seq<u8>) -> core::result::Result<Probe, Failure> {
    let streams = ea_streams(b, 0, Seq::empty());
    if streams.len() == 0 {
        Err(Failure::InvalidData)
    } else {
        Ok(Probe { format: "ea", streams })
    }
}

/// Whether `bytes` starts with an EA header chunk.
pub fn looks_like_ea(bytes: &[u8]) -> (r: bool)
    ensures
        r == ea_magic(bytes@),
{
    tag_at(bytes, 0, &[0x4du8, 0x56, 0x68, 0x64]) || tag_at(bytes, 0, &[0x41u8, 0x56, 0x50, 0x36])
}

/// Probes an EA file: VP6 video headers and "SCHl" audio headers become streams.
pub fn parse_ea(bytes: &[u8]) -> (r: Result<ProbeDocument>)
    ensures
        probe_outcome(r) == spec_parse_ea(bytes@),
{
    let mut streams: Vec<StreamMetadata> = Vec::new();
    let mut pos: usize = 0;
    while pos <= bytes.len() && bytes.len() - pos >= 8
        invariant_except_break
            ea_streams(bytes@, 0, Seq::empty()) == ea_streams(bytes@, pos as int, streams@),
        invariant
            pos <= bytes.len() + 1,
        ensures
            ea_streams(bytes@, 0, Seq::empty()) == streams@,
        decreases bytes.len() + 1 - pos,
    {
        let size = match read_u32(bytes, pos + 4) {
        Ok(v) => v,
        Err(e) => return Err(e),
    } as usize;
        if size < 8 || size > bytes.len() - pos {
            break;
        }
        let data_start = pos + 8;
        let data_end = pos + size;
        if tag_at(bytes, pos, &[0x4du8, 0x56, 0x68, 0x64]) || tag_at(bytes, pos, &[0x41u8, 0x56, 0x68, 0x64]) {
            if let Some(stream) = parse_video_header(&bytes[data_start..data_end], streams.len()) {
                streams.push(stream);
            }
        } else if tag_at(bytes, pos, &[0x53u8, 0x43, 0x48, 0x6c]) {
            let index = streams.len();
            streams.push(StreamMetadata::audio(index, "adpcm_ea_r3", 32000, 2, 0, zero_seconds()));
        }
        if size % 2 == 1 && size == bytes.len() - pos {
            break;
        }
        pos = pos + size + size % 2;
    }
    if streams.len() == 0 {
        return Err(invalid_data("EA file has no supported streams"));
    }
    Ok(ProbeDocument { format: "ea", streams })
}

fn parse_video_header(data: &[u8], index: usize) -> (r: Option<StreamMetadata>)
    ensures
        r == ea_video(data@, index as int),
{
    if data.len() < 20 {
        return None;
    }
    if !tag_at(data, 0, &[0x76u8, 0x70, 0x36, 0x30]) && !tag_at(data, 0, &[0x76u8, 0x70, 0x36, 0x31]) && !tag_at(data, 0, &[0x00u8, 0x00, 0x00, 0x00]) {
        return None;
    }
    let width = round_up_16(match read_u16(data, 4) { Ok(v) => v as u32, Err(_) => return None });
    let height = round_up_16(match read_u16(data, 6) { Ok(v) => v as u32, Err(_) => return None });
    let frames = match read_u32(data, 8) { Ok(v) => v, Err(_) => return None };
    let fps_fixed = match read_u32(data, 16) { Ok(v) => v, Err(_) => return None };
    let duration = if fps_fixed == 0 {
        zero_seconds()
    } else {
        Seconds { num: frames as u128 * 32768, den: fps_fixed as u128 }
    };
    Some(StreamMetadata::video(index, "vp6", width, height, Some(duration), None))
}

fn round_up_16(value: u32) -> (r: u32)
    ensures
        r == round_up_16_spec(value as int),
{
    let v = if value > u32::MAX - 15 { u32::MAX } else { value + 15 };
    v / 16 * 16
}

fn read_u32(bytes: &[u8], offset: usize) -> (r: Result<u32>)
    requires
        offset <= usize::MAX - 4,
    ensures
        read_outcome32(r) == read_result(bytes@, offset as int, 4, u32_le(bytes@, offset as int)),
{
    if offset + 4 > bytes.len() {
        return Err(unexpected_eof(offset + 4, bytes.len()));
    }
    Ok(le32(bytes, offset))
}

fn read_u16(bytes: &[u8], offset: usize) -> (r: Result<u16>)
    requires
        offset <= usize::MAX - 2,
    ensures
        read_outcome16(r) == read_result(bytes@, offset as int, 2, u16_le(bytes@, offset as int)),
{
    if offset + 2 > bytes.len() {
        return Err(unexpected_eof(offset + 2, bytes.len()));
    }
    Ok(le16(bytes, offset))
}

} // verus!
