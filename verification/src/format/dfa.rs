use vstd::prelude::*;
use crate::bytes::{wide_mul, has_tag, le16, read_outcome16, read_result, tag_at, u16_le};
use crate::error::{invalid_data, unexpected_eof, Failure, Result};
use crate::metadata::{probe_outcome, secs, video_stream, Probe, ProbeDocument, Seconds, StreamMetadata};

verus! {

/// Whether `b` starts with "DFIA" followed by two zero bytes, at least 14 bytes long.
pub open spec fn dfa_magic(b: Seq<u8>) -> bool {
    b.len() >= 14 && has_tag(b, 0, seq![0x44u8, 0x46, 0x49, 0x41]) && b[4] == 0 && b[5] == 0
}

/// The probe of a Chronomaster DFA file.
pub open spec fn spec_parse_dfa(b: Seq<u8>) -> core::result::Result<Probe, Failure> {
    if !dfa_magic(b) || u16_le(b, 6) == 0 || u16_le(b, 8) == 0 || u16_le(b, 10) == 0
        || u16_le(b, 12) == 0 {
        Err(Failure::InvalidData)
    } else {
        Ok(Probe {
            format: "dfa",
            streams: seq![video_stream(0, "dfa", u16_le(b, 8), u16_le(b, 10),
                Some(secs(u16_le(b, 6) * u16_le(b, 12), 1000)), None)],
        })
    }
}

/// Probes a DFA file: frame count times milliseconds per frame.
pub fn parse_dfa(bytes: &[u8]) -> (r: Result<ProbeDocument>)
    ensures
        probe_outcome(r) == spec_parse_dfa(bytes@),
{
    if !looks_like_dfa(bytes) {
        return Err(invalid_data("missing Chronomaster DFA header"));
    }
    let frame_count = match read_u16(bytes, 6) {
        Ok(v) => v,
        Err(e) => return Err(e),
    } as u32;
    let width = match read_u16(bytes, 8) {
        Ok(v) => v,
        Err(e) => return Err(e),
    } as u32;
    let height = match read_u16(bytes, 10) {
        Ok(v) => v,
        Err(e) => return Err(e),
    } as u32;
    let milliseconds_per_frame = match read_u16(bytes, 12) {
        Ok(v) => v,
        Err(e) => return Err(e),
    } as u32;
    if frame_count == 0 || width == 0 || height == 0 || milliseconds_per_frame == 0 {
        return Err(invalid_data("invalid Chronomaster DFA stream metadata"));
    }
    let duration = Seconds { num: wide_mul(frame_count as u64, milliseconds_per_frame as u64), den: 1000 };
    Ok(ProbeDocument::single("dfa", StreamMetadata::video(0, "dfa", width, height, Some(duration), None)))
}

/// Whether `bytes` looks like a DFA file.
pub fn looks_like_dfa(bytes: &[u8]) -> (r: bool)
    ensures
        r == dfa_magic(bytes@),
{
    bytes.len() >= 14 && tag_at(bytes, 0, &[0x44u8, 0x46, 0x49, 0x41]) && bytes[4] == 0 && bytes[5] == 0
}

fn read_u16(bytes: &[u8], offset: usize) -> (r: Result<u16>)
    requires
        offset <= usize::MAX - 2,
    ensures
        read_outcome16(r) == read_result(bytes@, offset as int, 2, u16_le(bytes@, offset as int)),
{
    if offset + 2 > bytes.len() {
        return Err(unexpected_eof(offset + 2, bytes.len()));
    }
    Ok(le16(bytes, offset))
}

} // verus!
