use vstd::prelude::*;
use crate::bytes::{has_tag, le32, read_outcome32, read_result, tag_at, u32_le};
use crate::error::{invalid_data, unexpected_eof, Failure, Result};
use crate::metadata::{probe_outcome, secs, video_stream, Probe, ProbeDocument, Seconds, StreamMetadata};

verus! {

/// Whether `b` starts with "CI," and is at least 0x38 bytes long.
pub open spec fn cine_magic(b: Seq<u8>) -> bool {
    b.len() >= 0x38 && has_tag(b, 0, seq![0x43u8, 0x49, 0x2c])
}

/// The probe of a Phantom CINE file: dimensions at 0x30 and 0x34, one frame at 31 fps.
pub open spec fn spec_parse_cine(b: Seq<u8>) -> core::result::Result<Probe, Failure> {
    if !cine_magic(b) || u32_le(b, 0x30) == 0 || u32_le(b, 0x34) == 0 {
        Err(Failure::InvalidData)
    } else {
        Ok(Probe {
            format: "cine",
            streams: seq![video_stream(0, "rawvideo", u32_le(b, 0x30), u32_le(b, 0x34), Some(secs(1, 31)), None)],
        })
    }
}

/// Probes a CINE file.
pub fn parse_cine(bytes: &[u8]) -> (r: Result<ProbeDocument>)
    ensures
        probe_outcome(r) == spec_parse_cine(bytes@),
{
    if !looks_like_cine(bytes) {
        return Err(invalid_data("missing CINE header"));
    }
    let width = match read_u32_le(bytes, 0x30) {
        Ok(v) => v,
        Err(e) => return Err(e),
    };
    let height = match read_u32_le(bytes, 0x34) {
        Ok(v) => v,
        Err(e) => return Err(e),
    };
    if width == 0 || height == 0 {
        return Err(invalid_data("invalid CINE dimensions"));
    }
    let duration = Seconds { num: 1, den: 31 };
    Ok(ProbeDocument::single("cine", StreamMetadata::video(0, "rawvideo", width, height, Some(duration), None)))
}

/// Whether `bytes` looks like a CINE file.
pub fn looks_like_cine(bytes: &[u8]) -> (r: bool)
    ensures
        r == cine_magic(bytes@),
{
    bytes.len() >= 0x38 && tag_at(bytes, 0, &[0x43u8, 0x49, 0x2c])
}

fn read_u32_le(bytes: &[u8], offset: usize) -> (r: Result<u32>)
    requires
        offset <= usize::MAX - 4,
    ensures
        read_outcome32(r) == read_result(bytes@, offset as int, 4, u32_le(bytes@, offset as int)),
{
    if offset + 4 > bytes.len() {
        return Err(unexpected_eof(offset + 4, bytes.len()));
    }
    Ok(le32(bytes, offset))
}

} // verus!
