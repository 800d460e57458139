use vstd::prelude::*;
use crate::error::{invalid_data, Failure, Result};
use crate::metadata::{probe_outcome, video_stream, Probe, ProbeDocument, StreamMetadata};

verus! {

/// The payload size of the binary-text files this probe recognises.
pub const OBSERVED_BIN_TEXT_BYTES: usize = 12800;

/// The probe of a binary text file, recognised by its exact size.
pub open spec fn spec_parse_bintext(b: Seq<u8>) -> core::result::Result<Probe, Failure> {
    if b.len() != 12800 {
        Err(Failure::InvalidData)
    } else {
        Ok(Probe { format: "bin", streams: seq![video_stream(0, "bintext", 1280, 640, None, None)] })
    }
}

/// Probes a binary text file.
pub fn parse_bintext(bytes: &[u8]) -> (r: Result<ProbeDocument>)
    ensures
        probe_outcome(r) == spec_parse_bintext(bytes@),
{
    if !looks_like_bintext(bytes) {
        return Err(invalid_data("missing observed binary text payload"));
    }
    Ok(ProbeDocument::single("bin", StreamMetadata::video(0, "bintext", 1280, 640, None, None)))
}

/// Whether `bytes` has the size of a binary text file.
pub fn looks_like_bintext(bytes: &[u8]) -> (r: bool)
    ensures
        r == (bytes@.len() == 12800),
{
    bytes.len() == OBSERVED_BIN_TEXT_BYTES
}

} // verus!
