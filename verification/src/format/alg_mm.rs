use vstd::prelude::*;
use crate::error::{invalid_data, Failure, Result};
use crate::metadata::{audio_stream, probe_outcome, video_stream, zero_secs, zero_seconds, Probe, ProbeDocument, StreamMetadata};

verus! {

/// The probe of an ALG MM file: width is byte 13 times 256, height is byte 14.
pub open spec fn spec_parse_alg_mm(b: Seq<u8>) -> core::result::Result<Probe, Failure> {
    if b.len() < 16 || b[2] != 0x18 || b[13] == 0 || b[14] == 0 {
        Err(Failure::InvalidData)
    } else {
        Ok(Probe {
            format: "mm",
            streams: seq![
                video_stream(0, "mmvideo", b[13] * 256, b[14] as int, Some(zero_secs()), None),
                audio_stream(1, "pcm_u8", 8000, 1, 8, zero_secs()),
            ],
        })
    }
}

/// Probes an ALG MM file.
pub fn parse_alg_mm(bytes: &[u8]) -> (r: Result<ProbeDocument>)
    ensures
        probe_outcome(r) == spec_parse_alg_mm(bytes@),
{
    if bytes.len() < 16 || bytes[2] != 0x18 {
        return Err(invalid_data("missing ALG MM header shape"));
    }
    let width = bytes[13] as u32 * 256;
    let height = bytes[14] as u32;
    if width == 0 || height == 0 {
        return Err(invalid_data("invalid ALG MM dimensions"));
    }
    let streams = vec![
        StreamMetadata::video(0, "mmvideo", width, height, Some(zero_seconds()), None),
        StreamMetadata::audio(1, "pcm_u8", 8000, 1, 8, zero_seconds()),
    ];
    Ok(ProbeDocument { format: "mm", streams })
}

} // verus!
