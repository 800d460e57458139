use vstd::prelude::*;
use crate::bytes::{has_tag, le16, le32, read_outcome32, read_result, tag_at, u16_le, u32_le};
use crate::error::{invalid_data, unexpected_eof, Failure, Result};
use crate::metadata::{audio_stream, probe_outcome, secs, Probe, ProbeDocument, Seconds, StreamMetadata};

verus! {

/// Whether `b` is a RIFF/WAVE file whose format chunk says PCM, mono, 8000 Hz.
pub open spec fn act_shape(b: Seq<u8>) -> bool {
    &&& b.len() >= 44
    &&& has_tag(b, 0, seq![0x52u8, 0x49, 0x46, 0x46])
    &&& has_tag(b, 8, seq![0x57u8, 0x41, 0x56, 0x45])
    &&& has_tag(b, 12, seq![0x66u8, 0x6d, 0x74, 0x20])
    &&& u16_le(b, 20) == 1
    &&& u16_le(b, 22) == 1
    &&& u32_le(b, 24) == 8000
}

/// The declared size of the first "data" chunk at or after `pos`, walking the RIFF
/// chunks (each padded to an even size).
pub open spec fn act_data_size(b: Seq<u8>, pos: int) -> core::result::Result<int, Failure>
    decreases b.len() - pos,
{
    if pos < 0 || pos + 8 > b.len() {
        Err(Failure::InvalidData)
    } else if has_tag(b, pos, seq![0x64u8, 0x61, 0x74, 0x61]) {
        Ok(u32_le(b, pos + 4))
    } else {
        let next = pos + 8 + u32_le(b, pos + 4) + u32_le(b, pos + 4) % 2;
        if next > b.len() {
            Err(Failure::InvalidData)
        } else {
            act_data_size(b, next)
        }
    }
}

/// The probe of an ACT (G.729 in RIFF) file: 8000 bytes per second of data.
pub open spec fn spec_parse_act(b: Seq<u8>) -> core::result::Result<Probe, Failure> {
    if !act_shape(b) {
        Err(Failure::InvalidData)
    } else {
        match act_data_size(b, 12) {
            Err(e) => Err(e),
            Ok(size) => Ok(Probe {
                format: "act",
                streams: seq![audio_stream(0, "g729", 8000, 1, 0, secs(size, 8000))],
            }),
        }
    }
}

/// Probes an ACT file.
pub fn parse_act(bytes: &[u8]) -> (r: Result<ProbeDocument>)
    ensures
        probe_outcome(r) == spec_parse_act(bytes@),
{
    if !looks_like_act(bytes) {
        return Err(invalid_data("missing ACT RIFF/WAVE header"));
    }
    let data_size = match find_data_chunk_size(bytes) {
        Ok(v) => v,
        Err(e) => return Err(e),
    };
    let duration = Seconds { num: data_size as u128, den: 8000 };
    Ok(ProbeDocument::single("act", StreamMetadata::audio(0, "g729", 8000, 1, 0, duration)))
}

/// Whether `bytes` has the RIFF/WAVE shape of an ACT file.
pub fn looks_like_act(bytes: &[u8]) -> (r: bool)
    ensures
        r == act_shape(bytes@),
{
    bytes.len() >= 44 && tag_at(bytes, 0, &[0x52u8, 0x49, 0x46, 0x46]) && tag_at(bytes, 8, &[0x57u8, 0x41, 0x56, 0x45])
        && tag_at(bytes, 12, &[0x66u8, 0x6d, 0x74, 0x20]) && read_u16_le_lossy(bytes, 20) == Some(1u16)
        && read_u16_le_lossy(bytes, 22) == Some(1u16) && read_u32_le_lossy(bytes, 24) == Some(8000u32)
}

fn find_data_chunk_size(bytes: &[u8]) -> (r: Result<u32>)
    ensures
        read_outcome32(r) == act_data_size(bytes@, 12),
{
    let mut pos: usize = 12;
    while pos <= bytes.len() && bytes.len() - pos >= 8
        invariant
            pos <= bytes.len() + 12,
            act_data_size(bytes@, 12) == act_data_size(bytes@, pos as int),
        decreases bytes.len() + 12 - pos,
    {
        let size = match read_u32_le(bytes, pos + 4) {
        Ok(v) => v,
        Err(e) => return Err(e),
    };
        if tag_at(bytes, pos, &[0x64u8, 0x61, 0x74, 0x61]) {
            return Ok(size);
        }
        let next = pos as u128 + 8 + size as u128 + (size % 2) as u128;
        if next > bytes.len() as u128 {
            return Err(invalid_data("missing ACT data chunk"));
        }
        pos = next as usize;
    }
    Err(invalid_data("missing ACT data chunk"))
}

fn read_u16_le_lossy(bytes: &[u8], pos: usize) -> (r: Option<u16>)
    ensures
        r == (if pos + 2 <= bytes@.len() { Some(u16_le(bytes@, pos as int) as u16) } else { None }),
{
    if pos > bytes.len() || bytes.len() - pos < 2 {
        return None;
    }
    Some(le16(bytes, pos))
}

fn read_u32_le_lossy(bytes: &[u8], pos: usize) -> (r: Option<u32>)
    ensures
        r == (if pos + 4 <= bytes@.len() { Some(u32_le(bytes@, pos as int) as u32) } else { None }),
{
    if pos > bytes.len() || bytes.len() - pos < 4 {
        return None;
    }
    Some(le32(bytes, pos))
}

fn read_u32_le(bytes: &[u8], pos: usize) -> (r: Result<u32>)
    requires
        pos <= usize::MAX - 4,
    ensures
        read_outcome32(r) == read_result(bytes@, pos as int, 4, u32_le(bytes@, pos as int)),
{
    match read_u32_le_lossy(bytes, pos) {
        Some(v) => Ok(v),
        None => Err(unexpected_eof(pos + 4, bytes.len())),
    }
}

} // verus!
