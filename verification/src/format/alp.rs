use vstd::prelude::*;
use crate::bytes::{wide_mul, has_tag, le32, read_outcome32, read_result, tag_at, u32_le};
use crate::error::{eof, invalid_data, unexpected_eof, unsupported, Failure, Result};
use crate::metadata::{audio_stream, probe_outcome, secs, Probe, ProbeDocument, Seconds, StreamMetadata};

verus! {

/// Whether `b` starts with the ALP magic "ALP ".
pub open spec fn alp_magic(b: Seq<u8>) -> bool {
    has_tag(b, 0, seq![0x41u8, 0x4c, 0x50, 0x20])
}

/// The sample rate an ALP header declares or implies.
pub open spec fn alp_sample_rate(b: Seq<u8>) -> int {
    if u32_le(b, 4) >= 12 {
        u32_le(b, 16)
    } else if b[15] == 2 {
        22050
    } else {
        11025
    }
}

/// The probe of an ALP (IMA ADPCM) file.
pub open spec fn spec_parse_alp(b: Seq<u8>) -> core::result::Result<Probe, Failure> {
    let header_size = u32_le(b, 4);
    let data_start = 8 + header_size;
    if !alp_magic(b) {
        Err(Failure::InvalidData)
    } else if b.len() < 16 {
        Err(eof(16, b.len() as int))
    } else if data_start > b.len() || header_size < 8 {
        Err(Failure::InvalidData)
    } else if !has_tag(b, 8, seq![0x41u8, 0x44, 0x50, 0x43, 0x4d, 0x00]) {
        Err(Failure::InvalidData)
    } else if b[15] == 0 || alp_sample_rate(b) == 0 {
        Err(Failure::InvalidData)
    } else {
        Ok(Probe {
            format: "alp",
            streams: seq![audio_stream(0, "adpcm_ima_alp", alp_sample_rate(b), b[15] as int, 4,
                secs((b.len() - data_start) * 2, alp_sample_rate(b) * b[15]))],
        })
    }
}

/// Probes an ALP file; duration is two samples per payload byte.
pub fn parse_alp(bytes: &[u8]) -> (r: Result<ProbeDocument>)
    ensures
        probe_outcome(r) == spec_parse_alp(bytes@),
{
    if !looks_like_alp(bytes) {
        return Err(invalid_data("missing ALP header"));
    }
    if bytes.len() < 16 {
        return Err(unexpected_eof(16, bytes.len()));
    }
    let header_size = match read_u32_le(bytes, 4) {
        Ok(v) => v,
        Err(e) => return Err(e),
    } as u64;
    let data_start = 8 + header_size;
    if data_start > bytes.len() as u64 || header_size < 8 {
        return Err(invalid_data("invalid ALP header size"));
    }
    if !tag_at(bytes, 8, &[0x41u8, 0x44, 0x50, 0x43, 0x4d, 0x00]) {
        return Err(invalid_data("unsupported ALP codec header"));
    }
    let channels = bytes[15] as u16;
    let sample_rate = if header_size >= 12 {
        match read_u32_le(bytes, 16) {
        Ok(v) => v,
        Err(e) => return Err(e),
    }
    } else if channels == 2 {
        22050
    } else {
        11025
    };
    if channels == 0 || sample_rate == 0 {
        return Err(invalid_data("ALP audio metadata must be nonzero"));
    }
    let payload = bytes.len() as u64 - data_start;
    let duration = Seconds { num: payload as u128 * 2, den: wide_mul(sample_rate as u64, channels as u64) };
    Ok(ProbeDocument::single(
        "alp",
        StreamMetadata::audio(0, "adpcm_ima_alp", sample_rate, channels, 4, duration),
    ))
}

/// Whether `bytes` starts with "ALP ".
pub fn looks_like_alp(bytes: &[u8]) -> (r: bool)
    ensures
        r == alp_magic(bytes@),
{
    tag_at(bytes, 0, &[0x41u8, 0x4c, 0x50, 0x20])
}

fn read_u32_le(bytes: &[u8], offset: usize) -> (r: Result<u32>)
    requires
        offset <= usize::MAX - 4,
    ensures
        read_outcome32(r) == read_result(bytes@, offset as int, 4, u32_le(bytes@, offset as int)),
{
    if offset + 4 > bytes.len() {
        return Err(unexpected_eof(offset + 4, bytes.len()));
    }
    Ok(le32(bytes, offset))
}

} // verus!
