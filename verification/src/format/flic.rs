use vstd::prelude::*;
use crate::bytes::{le16, le32, read_outcome16, read_outcome32, read_result, u16_le, u32_le};
use crate::error::{eof, invalid_data, unexpected_eof, Failure, Result};
use crate::metadata::{probe_outcome, video_stream, zero_secs, zero_seconds, Probe, ProbeDocument, StreamMetadata};

verus! {

/// Whether `b` carries a FLIC magic (0xaf11 or 0xaf12) at 4.
pub open spec fn flic_magic(b: Seq<u8>) -> bool {
    b.len() >= 6 && (u16_le(b, 4) == 0xaf11 || u16_le(b, 4) == 0xaf12)
}

/// The probe of a FLIC animation.
pub open spec fn spec_parse_flic(b: Seq<u8>) -> core::result::Result<Probe, Failure> {
    if !flic_magic(b) {
        Err(Failure::InvalidData)
    } else if b.len() < 12 {
        Err(eof(12, b.len() as int))
    } else if (u32_le(b, 0) != 0 && u32_le(b, 0) > b.len() + 16) || u16_le(b, 8) == 0
        || u16_le(b, 10) == 0 {
        Err(Failure::InvalidData)
    } else {
        Ok(Probe {
            format: "flic",
            streams: seq![video_stream(0, "flic", u16_le(b, 8), u16_le(b, 10), Some(zero_secs()), None)],
        })
    }
}

/// Probes a FLIC animation; a declared size far beyond the input is refused.
pub fn parse_flic(bytes: &[u8]) -> (r: Result<ProbeDocument>)
    ensures
        probe_outcome(r) == spec_parse_flic(bytes@),
{
    if !looks_like_flic(bytes) {
        return Err(invalid_data("missing FLIC header"));
    }
    if bytes.len() < 12 {
        return Err(unexpected_eof(12, bytes.len()));
    }
    let declared_size = match read_u32_le(bytes, 0) {
        Ok(v) => v,
        Err(e) => return Err(e),
    } as u128;
    if declared_size != 0 && declared_size > bytes.len() as u128 + 16 {
        return Err(invalid_data("FLIC declared size is implausible"));
    }
    let width = match read_u16_le(bytes, 8) {
        Ok(v) => v,
        Err(e) => return Err(e),
    } as u32;
    let height = match read_u16_le(bytes, 10) {
        Ok(v) => v,
        Err(e) => return Err(e),
    } as u32;
    if width == 0 || height == 0 {
        return Err(invalid_data("FLIC dimensions must be nonzero"));
    }
    Ok(ProbeDocument::single("flic", StreamMetadata::video(0, "flic", width, height, Some(zero_seconds()), None)))
}

/// Whether `bytes` carries a FLIC magic.
pub fn looks_like_flic(bytes: &[u8]) -> (r: bool)
    ensures
        r == flic_magic(bytes@),
{
    if bytes.len() < 6 {
        return false;
    }
    match read_u16_le(bytes, 4) {
        Ok(v) => v == 0xaf11 || v == 0xaf12,
        Err(_) => false,
    }
}

fn read_u16_le(bytes: &[u8], offset: usize) -> (r: Result<u16>)
    requires
        offset <= usize::MAX - 2,
    ensures
        read_outcome16(r) == read_result(bytes@, offset as int, 2, u16_le(bytes@, offset as int)),
{
    if offset + 2 > bytes.len() {
        return Err(unexpected_eof(offset + 2, bytes.len()));
    }
    Ok(le16(bytes, offset))
}

fn read_u32_le(bytes: &[u8], offset: usize) -> (r: Result<u32>)
    requires
        offset <= usize::MAX - 4,
    ensures
        read_outcome32(r) == read_result(bytes@, offset as int, 4, u32_le(bytes@, offset as int)),
{
    if offset + 4 > bytes.len() {
        return Err(unexpected_eof(offset + 4, bytes.len()));
    }
    Ok(le32(bytes, offset))
}

} // verus!
