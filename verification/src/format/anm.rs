use vstd::prelude::*;
use crate::bytes::{has_tag, le16, read_outcome16, read_result, tag_at, u16_le};
use crate::error::{invalid_data, unexpected_eof, Failure, Result};
use crate::metadata::{probe_outcome, video_stream, zero_secs, zero_seconds, Probe, ProbeDocument, StreamMetadata};

verus! {

/// Whether `b` is an "LPF " file with the "ANIM" tag at 0x10.
pub open spec fn anm_magic(b: Seq<u8>) -> bool {
    b.len() >= 0x18 && has_tag(b, 0, seq![0x4cu8, 0x50, 0x46, 0x20]) && has_tag(b, 0x10, seq![0x41u8, 0x4e, 0x49, 0x4d])
}

/// The probe of a Deluxe Paint ANM file: dimensions at 0x14 and 0x16.
pub open spec fn spec_parse_anm(b: Seq<u8>) -> core::result::Result<Probe, Failure> {
    if !anm_magic(b) || u16_le(b, 0x14) == 0 || u16_le(b, 0x16) == 0 {
        Err(Failure::InvalidData)
    } else {
        Ok(Probe {
            format: "anm",
            streams: seq![video_stream(0, "anm", u16_le(b, 0x14), u16_le(b, 0x16), Some(zero_secs()), None)],
        })
    }
}

/// Probes an ANM file.
pub fn parse_anm(bytes: &[u8]) -> (r: Result<ProbeDocument>)
    ensures
        probe_outcome(r) == spec_parse_anm(bytes@),
{
    if !looks_like_anm(bytes) {
        return Err(invalid_data("missing ANM header"));
    }
    let width = match read_u16_le(bytes, 0x14) {
        Ok(v) => v,
        Err(e) => return Err(e),
    } as u32;
    let height = match read_u16_le(bytes, 0x16) {
        Ok(v) => v,
        Err(e) => return Err(e),
    } as u32;
    if width == 0 || height == 0 {
        return Err(invalid_data("invalid ANM dimensions"));
    }
    Ok(ProbeDocument::single("anm", StreamMetadata::video(0, "anm", width, height, Some(zero_seconds()), None)))
}

/// Whether `bytes` looks like an ANM file.
pub fn looks_like_anm(bytes: &[u8]) -> (r: bool)
    ensures
        r == anm_magic(bytes@),
{
    bytes.len() >= 0x18 && tag_at(bytes, 0, &[0x4cu8, 0x50, 0x46, 0x20]) && tag_at(bytes, 0x10, &[0x41u8, 0x4e, 0x49, 0x4d])
}

fn read_u16_le(bytes: &[u8], offset: usize) -> (r: Result<u16>)
    requires
        offset <= usize::MAX - 2,
    ensures
        read_outcome16(r) == read_result(bytes@, offset as int, 2, u16_le(bytes@, offset as int)),
{
    if offset + 2 > bytes.len() {
        return Err(unexpected_eof(offset + 2, bytes.len()));
    }
    Ok(le16(bytes, offset))
}

} // verus!
