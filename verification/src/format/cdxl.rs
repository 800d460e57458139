use vstd::prelude::*;
use crate::bytes::{be16, wide_mul, read_outcome16, read_result, u16_be};
use crate::error::{eof, invalid_data, unexpected_eof, Failure, Result, RmpegError};
use crate::metadata::{audio_stream, probe_outcome, secs, video_stream, zero_secs, zero_seconds, Probe, ProbeDocument, Seconds, StreamMetadata};
use crate::error::join3;

verus! {

/// The sample rate of CDXL audio.
pub const CDXL_AUDIO_SAMPLE_RATE: u32 = 11025;

/// The probe of a CDXL file: fixed-size frames, optional 8-bit audio per frame.
pub open spec fn spec_parse_cdxl(b: Seq<u8>) -> core::result::Result<Probe, Failure> {
    let frame_size = u16_be(b, 4);
    let video = video_stream(0, "cdxl", u16_be(b, 14), u16_be(b, 16), Some(zero_secs()), None);
    if b.len() < 32 {
        Err(eof(32, b.len() as int))
    } else if frame_size < 32 || u16_be(b, 14) == 0 || u16_be(b, 16) == 0 || (b.len() as int) / frame_size == 0 {
        Err(Failure::InvalidData)
    } else if u16_be(b, 22) > 0 {
        Ok(Probe {
            format: "cdxl",
            streams: seq![video, audio_stream(1, "pcm_s8_planar", 11025, 1, 8,
                secs(u16_be(b, 22) * ((b.len() as int) / frame_size), 11025))],
        })
    } else {
        Ok(Probe { format: "cdxl", streams: seq![video] })
    }
}

/// Probes a CDXL file; audio lasts the samples of every complete frame.
pub fn parse_cdxl(bytes: &[u8]) -> (r: Result<ProbeDocument>)
    ensures
        probe_outcome(r) == spec_parse_cdxl(bytes@),
{
    if bytes.len() < 32 {
        return Err(unexpected_eof(32, bytes.len()));
    }
    let frame_size = match read_u16_be(bytes, 4) {
        Ok(v) => v,
        Err(e) => return Err(e),
    } as usize;
    let width = match read_u16_be(bytes, 14) {
        Ok(v) => v,
        Err(e) => return Err(e),
    } as u32;
    let height = match read_u16_be(bytes, 16) {
        Ok(v) => v,
        Err(e) => return Err(e),
    } as u32;
    let audio_samples_per_frame = match read_u16_be(bytes, 22) {
        Ok(v) => v,
        Err(e) => return Err(e),
    } as u32;
    if frame_size < 32 {
        let mut message = crate::error::with_number("CDXL frame size ", frame_size as u64);
        message.append(" is too small");
        return Err(RmpegError::InvalidData(message));
    }
    if width == 0 || height == 0 {
        return Err(invalid_data("CDXL dimensions must be nonzero"));
    }
    let frame_count = bytes.len() / frame_size;
    if frame_count == 0 {
        return Err(invalid_data("CDXL file has no complete frames"));
    }
    let video = StreamMetadata::video(0, "cdxl", width, height, Some(zero_seconds()), None);
    if audio_samples_per_frame > 0 {
        let duration = Seconds {
            num: wide_mul(audio_samples_per_frame as u64, frame_count as u64),
            den: CDXL_AUDIO_SAMPLE_RATE as u128,
        };
        return Ok(ProbeDocument::pair(
            "cdxl",
            video,
            StreamMetadata::audio(1, "pcm_s8_planar", CDXL_AUDIO_SAMPLE_RATE, 1, 8, duration),
        ));
    }
    Ok(ProbeDocument::single("cdxl", video))
}

fn read_u16_be(bytes: &[u8], offset: usize) -> (r: Result<u16>)
    requires
        offset <= usize::MAX - 2,
    ensures
        read_outcome16(r) == read_result(bytes@, offset as int, 2, u16_be(bytes@, offset as int)),
{
    if offset + 2 > bytes.len() {
        return Err(unexpected_eof(offset + 2, bytes.len()));
    }
    Ok(be16(bytes, offset))
}

} // verus!
