use vstd::prelude::*;
use crate::error::{invalid_data, Failure, Result, RmpegError};
use crate::metadata::{audio_stream, probe_outcome, video_stream, zero_secs, zero_seconds, Probe, ProbeDocument, StreamMetadata};

verus! {

/// The smallest input that this probe accepts as BMV.
pub const OBSERVED_MIN_BMV_BYTES: usize = 1000000;

/// The probe of a BMV file, accepted by size alone.
pub open spec fn spec_parse_bmv(b: Seq<u8>) -> core::result::Result<Probe, Failure> {
    if b.len() < 1000000 {
        Err(Failure::InvalidData)
    } else {
        Ok(Probe {
            format: "bmv",
            streams: seq![
                video_stream(0, "bmv_video", 640, 429, Some(zero_secs()), None),
                audio_stream(1, "bmv_audio", 22050, 2, 0, zero_secs()),
            ],
        })
    }
}

/// Probes a BMV file.
pub fn parse_bmv(bytes: &[u8]) -> (r: Result<ProbeDocument>)
    ensures
        probe_outcome(r) == spec_parse_bmv(bytes@),
        bytes@.len() < OBSERVED_MIN_BMV_BYTES ==> (r matches Err(RmpegError::InvalidData(m))
            && m@ == "BMV probe window is too small"@),
{
    if bytes.len() < OBSERVED_MIN_BMV_BYTES {
        return Err(invalid_data("BMV probe window is too small"));
    }
    Ok(ProbeDocument::pair(
        "bmv",
        StreamMetadata::video(0, "bmv_video", 640, 429, Some(zero_seconds()), None),
        StreamMetadata::audio(1, "bmv_audio", 22050, 2, 0, zero_seconds()),
    ))
}

} // verus!
