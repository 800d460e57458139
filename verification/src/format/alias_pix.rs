use vstd::prelude::*;
use crate::bytes::{be16, has_tag, read_outcome16, read_result, tag_at, u16_be};
use crate::error::{eof, invalid_data, unexpected_eof, Failure, Result};
use crate::metadata::{probe_outcome, video_stream, zero_secs, zero_seconds, Probe, ProbeDocument, StreamMetadata};

verus! {

/// The probe of an Alias PIX image: big-endian width and height, then four zero bytes.
pub open spec fn spec_parse_alias_pix(b: Seq<u8>) -> core::result::Result<Probe, Failure> {
    if b.len() < 8 {
        Err(eof(8, b.len() as int))
    } else if !has_tag(b, 4, seq![0x00u8, 0x00, 0x00, 0x00]) {
        Err(Failure::InvalidData)
    } else if u16_be(b, 0) == 0 || u16_be(b, 2) == 0 {
        Err(Failure::InvalidData)
    } else {
        Ok(Probe {
            format: "alias_pix",
            streams: seq![video_stream(0, "alias_pix", u16_be(b, 0), u16_be(b, 2), Some(zero_secs()), None)],
        })
    }
}

/// Probes an Alias PIX image.
pub fn parse_alias_pix(bytes: &[u8]) -> (r: Result<ProbeDocument>)
    ensures
        probe_outcome(r) == spec_parse_alias_pix(bytes@),
{
    if bytes.len() < 8 {
        return Err(unexpected_eof(8, bytes.len()));
    }
    if !tag_at(bytes, 4, &[0x00u8, 0x00, 0x00, 0x00]) {
        return Err(invalid_data("missing Alias PIX reserved header bytes"));
    }
    let width = match read_u16_be(bytes, 0) {
        Ok(v) => v as u32,
        Err(e) => return Err(e),
    };
    let height = match read_u16_be(bytes, 2) {
        Ok(v) => v as u32,
        Err(e) => return Err(e),
    };
    if width == 0 || height == 0 {
        return Err(invalid_data("Alias PIX dimensions must be nonzero"));
    }
    Ok(ProbeDocument::single(
        "alias_pix",
        StreamMetadata::video(0, "alias_pix", width, height, Some(zero_seconds()), None),
    ))
}

fn read_u16_be(bytes: &[u8], offset: usize) -> (r: Result<u16>)
    requires
        offset <= usize::MAX - 2,
    ensures
        read_outcome16(r) == read_result(bytes@, offset as int, 2, u16_be(bytes@, offset as int)),
{
    if offset + 2 > bytes.len() {
        return Err(unexpected_eof(offset + 2, bytes.len()));
    }
    Ok(be16(bytes, offset))
}

} // verus!
