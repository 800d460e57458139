use vstd::prelude::*;
use crate::bytes::{be16, has_tag, read_outcome16, read_result, tag_at, u16_be};
use crate::error::{invalid_data, unexpected_eof, Failure, Result};
use crate::metadata::{probe_outcome, video_stream, Probe, ProbeDocument, StreamMetadata};

verus! {

/// Whether `b` has the raw DNxHD header prefix 03 01 80 a0 at 4.
pub open spec fn dnxhd_magic(b: Seq<u8>) -> bool {
    b.len() >= 28 && has_tag(b, 4, seq![0x03u8, 0x01, 0x80, 0xa0])
}

/// The probe of a raw DNxHD frame: height at 24, width at 26, big-endian.
pub open spec fn spec_parse_raw_dnxhd(b: Seq<u8>) -> core::result::Result<Probe, Failure> {
    if !dnxhd_magic(b) || u16_be(b, 26) == 0 || u16_be(b, 24) == 0 {
        Err(Failure::InvalidData)
    } else {
        Ok(Probe { format: "dnxhd", streams: seq![video_stream(0, "dnxhd", u16_be(b, 26), u16_be(b, 24), None, None)] })
    }
}

/// Probes a raw DNxHD frame.
pub fn parse_raw_dnxhd(bytes: &[u8]) -> (r: Result<ProbeDocument>)
    ensures
        probe_outcome(r) == spec_parse_raw_dnxhd(bytes@),
{
    if !looks_like_raw_dnxhd(bytes) {
        return Err(invalid_data("missing raw DNxHD frame header"));
    }
    let height = match read_u16_be(bytes, 24) {
        Ok(v) => v,
        Err(e) => return Err(e),
    } as u32;
    let width = match read_u16_be(bytes, 26) {
        Ok(v) => v,
        Err(e) => return Err(e),
    } as u32;
    if width == 0 || height == 0 {
        return Err(invalid_data("DNxHD frame dimensions are zero"));
    }
    Ok(ProbeDocument::single("dnxhd", StreamMetadata::video(0, "dnxhd", width, height, None, None)))
}

/// Whether `bytes` looks like a raw DNxHD frame.
pub fn looks_like_raw_dnxhd(bytes: &[u8]) -> (r: bool)
    ensures
        r == dnxhd_magic(bytes@),
{
    bytes.len() >= 28 && tag_at(bytes, 4, &[0x03u8, 0x01, 0x80, 0xa0])
}

fn read_u16_be(bytes: &[u8], offset: usize) -> (r: Result<u16>)
    requires
        offset <= usize::MAX - 2,
    ensures
        read_outcome16(r) == read_result(bytes@, offset as int, 2, u16_be(bytes@, offset as int)),
{
    if offset + 2 > bytes.len() {
        return Err(unexpected_eof(offset + 2, bytes.len()));
    }
    Ok(be16(bytes, offset))
}

} // verus!
