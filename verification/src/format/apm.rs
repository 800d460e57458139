use vstd::prelude::*;
use crate::bytes::{wide_mul, has_tag, le32, read_outcome32, read_result, tag_at, u32_le};
use crate::error::{invalid_data, unexpected_eof, Failure, Result};
use crate::metadata::{audio_stream, probe_outcome, secs, Probe, ProbeDocument, Seconds, StreamMetadata};

verus! {

/// Whether `b` carries the APM "vs12" tag at 20 and version byte 4 at 14.
pub open spec fn apm_magic(b: Seq<u8>) -> bool {
    b.len() >= 32 && has_tag(b, 20, seq![0x76u8, 0x73, 0x31, 0x32]) && b[14] == 4
}

/// The probe of an APM file: two samples per compressed byte, shared among channels.
pub open spec fn spec_parse_apm(b: Seq<u8>) -> core::result::Result<Probe, Failure> {
    if !apm_magic(b) || b[2] == 0 || u32_le(b, 4) == 0 || u32_le(b, 28) == 0 {
        Err(Failure::InvalidData)
    } else {
        Ok(Probe {
            format: "apm",
            streams: seq![audio_stream(0, "adpcm_ima_apm", u32_le(b, 4), b[2] as int, 4,
                secs(u32_le(b, 28) * 2, b[2] * u32_le(b, 4)))],
        })
    }
}

/// Probes an APM file.
pub fn parse_apm(bytes: &[u8]) -> (r: Result<ProbeDocument>)
    ensures
        probe_outcome(r) == spec_parse_apm(bytes@),
{
    if !looks_like_apm(bytes) {
        return Err(invalid_data("missing APM header"));
    }
    let channels = bytes[2] as u16;
    let sample_rate = match read_u32_le(bytes, 4) {
        Ok(v) => v,
        Err(e) => return Err(e),
    };
    let compressed_sample_count = match read_u32_le(bytes, 28) {
        Ok(v) => v,
        Err(e) => return Err(e),
    };
    if channels == 0 || sample_rate == 0 || compressed_sample_count == 0 {
        return Err(invalid_data("APM audio metadata must be nonzero"));
    }
    let duration = Seconds {
        num: compressed_sample_count as u128 * 2,
        den: wide_mul(channels as u64, sample_rate as u64),
    };
    Ok(ProbeDocument::single(
        "apm",
        StreamMetadata::audio(0, "adpcm_ima_apm", sample_rate, channels, 4, duration),
    ))
}

/// Whether `bytes` looks like an APM file.
pub fn looks_like_apm(bytes: &[u8]) -> (r: bool)
    ensures
        r == apm_magic(bytes@),
{
    bytes.len() >= 32 && tag_at(bytes, 20, &[0x76u8, 0x73, 0x31, 0x32]) && bytes[14] == 4
}

fn read_u32_le(bytes: &[u8], offset: usize) -> (r: Result<u32>)
    requires
        offset <= usize::MAX - 4,
    ensures
        read_outcome32(r) == read_result(bytes@, offset as int, 4, u32_le(bytes@, offset as int)),
{
    if offset + 4 > bytes.len() {
        return Err(unexpected_eof(offset + 4, bytes.len()));
    }
    Ok(le32(bytes, offset))
}

} // verus!
