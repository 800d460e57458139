use vstd::prelude::*;
use crate::bytes::{has_tag, tag_at};
use crate::error::{eof, invalid_data, unexpected_eof, Failure, Result};
use crate::metadata::{audio_stream, probe_outcome, secs, Probe, ProbeDocument, Seconds, StreamMetadata};

verus! {

/// The probe of an ATRAC1 AEA file: a 2048-byte header starting 00 08 00 00,
/// then payload read at 36 500 bytes per second.
pub open spec fn spec_parse_aea(b: Seq<u8>) -> core::result::Result<Probe, Failure> {
    if b.len() <= 2048 {
        Err(eof(2049, b.len() as int))
    } else if !has_tag(b, 0, seq![0x00u8, 0x08, 0x00, 0x00]) {
        Err(Failure::InvalidData)
    } else {
        Ok(Probe {
            format: "aea",
            streams: seq![audio_stream(0, "atrac1", 44100, 2, 0, secs(b.len() - 2048, 36500))],
        })
    }
}

/// Probes an AEA file.
pub fn parse_aea(bytes: &[u8]) -> (r: Result<ProbeDocument>)
    ensures
        probe_outcome(r) == spec_parse_aea(bytes@),
{
    if bytes.len() <= 2048 {
        return Err(unexpected_eof(2049, bytes.len()));
    }
    if !tag_at(bytes, 0, &[0x00u8, 0x08, 0x00, 0x00]) {
        return Err(invalid_data("missing AEA header"));
    }
    let duration = Seconds { num: (bytes.len() - 2048) as u128, den: 36500 };
    Ok(ProbeDocument::single("aea", StreamMetadata::audio(0, "atrac1", 44100, 2, 0, duration)))
}

} // verus!
