use vstd::prelude::*;
use crate::bytes::{has_tag, le16, read_outcome16, read_result, tag_at, u16_le};
use crate::error::{invalid_data, unexpected_eof, Failure, Result};
use crate::metadata::{probe_outcome, video_stream, Probe, ProbeDocument, StreamMetadata};

verus! {

/// Whether `b` starts with the BRender PIX chunk header 00000012 00000008 00000002 00000002.
pub open spec fn brender_pix_magic(b: Seq<u8>) -> bool {
    b.len() >= 32 && has_tag(b, 0, seq![0x00u8, 0x00, 0x00, 0x12, 0x00, 0x00, 0x00, 0x08, 0x00, 0x00, 0x00, 0x02, 0x00, 0x00, 0x00, 0x02])
}

/// The dimensions a BRender PIX header gives: the words at 28 and 30, or at 28 and 26
/// when either of those is zero.
pub open spec fn brender_pix_dims(b: Seq<u8>) -> (int, int) {
    if u16_le(b, 28) != 0 && u16_le(b, 30) != 0 {
        (u16_le(b, 28), u16_le(b, 30))
    } else {
        (u16_le(b, 28), u16_le(b, 26))
    }
}

/// The probe of a BRender PIX image.
pub open spec fn spec_parse_brender_pix(b: Seq<u8>) -> core::result::Result<Probe, Failure> {
    if !brender_pix_magic(b) || brender_pix_dims(b).0 == 0 || brender_pix_dims(b).1 == 0 {
        Err(Failure::InvalidData)
    } else {
        Ok(Probe {
            format: "brender_pix",
            streams: seq![video_stream(0, "brender_pix", brender_pix_dims(b).0, brender_pix_dims(b).1, None, None)],
        })
    }
}

/// Probes a BRender PIX image.
pub fn parse_brender_pix(bytes: &[u8]) -> (r: Result<ProbeDocument>)
    ensures
        probe_outcome(r) == spec_parse_brender_pix(bytes@),
{
    if !looks_like_brender_pix(bytes) {
        return Err(invalid_data("missing BRender PIX header"));
    }
    let (width, height) = match read_dimensions(bytes) {
        Ok(v) => v,
        Err(e) => return Err(e),
    };
    if width == 0 || height == 0 {
        return Err(invalid_data("BRender PIX dimensions are zero"));
    }
    Ok(ProbeDocument::single("brender_pix", StreamMetadata::video(0, "brender_pix", width, height, None, None)))
}

/// Whether `bytes` starts with the BRender PIX chunk header.
pub fn looks_like_brender_pix(bytes: &[u8]) -> (r: bool)
    ensures
        r == brender_pix_magic(bytes@),
{
    bytes.len() >= 32 && tag_at(bytes, 0, &[0x00u8, 0x00, 0x00, 0x12, 0x00, 0x00, 0x00, 0x08, 0x00, 0x00, 0x00, 0x02, 0x00, 0x00, 0x00, 0x02])
}

fn read_dimensions(bytes: &[u8]) -> (r: Result<(u32, u32)>)
    requires
        bytes@.len() >= 32,
    ensures
        r matches Ok(d) && d.0 == brender_pix_dims(bytes@).0 && d.1 == brender_pix_dims(bytes@).1,
{
    let width = match read_u16_le(bytes, 28) {
        Ok(v) => v,
        Err(e) => return Err(e),
    } as u32;
    let height = match read_u16_le(bytes, 30) {
        Ok(v) => v,
        Err(e) => return Err(e),
    } as u32;
    if width != 0 && height != 0 {
        return Ok((width, height));
    }
    let w = match read_u16_le(bytes, 28) {
        Ok(v) => v,
        Err(e) => return Err(e),
    } as u32;
    let h = match read_u16_le(bytes, 26) {
        Ok(v) => v,
        Err(e) => return Err(e),
    } as u32;
    Ok((w, h))
}

fn read_u16_le(bytes: &[u8], offset: usize) -> (r: Result<u16>)
    requires
        offset <= usize::MAX - 2,
    ensures
        read_outcome16(r) == read_result(bytes@, offset as int, 2, u16_le(bytes@, offset as int)),
{
    if offset + 2 > bytes.len() {
        return Err(unexpected_eof(offset + 2, bytes.len()));
    }
    Ok(le16(bytes, offset))
}

} // verus!
