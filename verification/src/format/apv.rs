use vstd::prelude::*;
use crate::bytes::{be16, has_tag, read_outcome16, read_result, tag_at, u16_be};
use crate::error::{invalid_data, unexpected_eof, Failure, Result};
use crate::metadata::{probe_outcome, video_stream, zero_secs, zero_seconds, Probe, ProbeDocument, StreamMetadata};

verus! {

/// Whether `b` carries the APV signature "aPv1" at 4.
pub open spec fn apv_magic(b: Seq<u8>) -> bool {
    b.len() >= 0x1b && has_tag(b, 4, seq![0x61u8, 0x50, 0x76, 0x31])
}

/// The probe of an APV stream: big-endian dimensions at 0x14 and 0x17.
pub open spec fn spec_parse_apv(b: Seq<u8>) -> core::result::Result<Probe, Failure> {
    if !apv_magic(b) || u16_be(b, 0x14) == 0 || u16_be(b, 0x17) == 0 {
        Err(Failure::InvalidData)
    } else {
        Ok(Probe {
            format: "apv",
            streams: seq![video_stream(0, "apv", u16_be(b, 0x14), u16_be(b, 0x17), Some(zero_secs()), None)],
        })
    }
}

/// Probes an APV stream.
pub fn parse_apv(bytes: &[u8]) -> (r: Result<ProbeDocument>)
    ensures
        probe_outcome(r) == spec_parse_apv(bytes@),
{
    if !looks_like_apv(bytes) {
        return Err(invalid_data("missing APV header"));
    }
    let width = match read_u16_be(bytes, 0x14) {
        Ok(v) => v,
        Err(e) => return Err(e),
    } as u32;
    let height = match read_u16_be(bytes, 0x17) {
        Ok(v) => v,
        Err(e) => return Err(e),
    } as u32;
    if width == 0 || height == 0 {
        return Err(invalid_data("invalid APV dimensions"));
    }
    Ok(ProbeDocument::single("apv", StreamMetadata::video(0, "apv", width, height, Some(zero_seconds()), None)))
}

/// Whether `bytes` looks like an APV stream.
pub fn looks_like_apv(bytes: &[u8]) -> (r: bool)
    ensures
        r == apv_magic(bytes@),
{
    bytes.len() >= 0x1b && tag_at(bytes, 4, &[0x61u8, 0x50, 0x76, 0x31])
}

fn read_u16_be(bytes: &[u8], offset: usize) -> (r: Result<u16>)
    requires
        offset <= usize::MAX - 2,
    ensures
        read_outcome16(r) == read_result(bytes@, offset as int, 2, u16_be(bytes@, offset as int)),
{
    if offset + 2 > bytes.len() {
        return Err(unexpected_eof(offset + 2, bytes.len()));
    }
    Ok(be16(bytes, offset))
}

} // verus!
