use vstd::prelude::*;
use crate::bytes::{be32, has_tag, le32, read_outcome32, read_result, tag_at, u32_be, u32_le};
use crate::error::{eof, invalid_data, unexpected_eof, Failure, Result};
use crate::metadata::{probe_outcome, video_stream, zero_secs, zero_seconds, Probe, ProbeDocument, StreamMetadata};

verus! {

/// Whether `b` starts with either DPX magic ("SDPX" big-endian, "XPDS" little-endian).
pub open spec fn dpx_magic(b: Seq<u8>) -> bool {
    has_tag(b, 0, seq![0x53u8, 0x44, 0x50, 0x58]) || has_tag(b, 0, seq![0x58u8, 0x50, 0x44, 0x53])
}

/// A DPX header word at `p` in the file's byte order.
pub open spec fn dpx_word(b: Seq<u8>, p: int) -> int {
    if has_tag(b, 0, seq![0x53u8, 0x44, 0x50, 0x58]) { u32_be(b, p) } else { u32_le(b, p) }
}

/// The probe of a DPX image: width at 772, height at 776.
pub open spec fn spec_parse_dpx(b: Seq<u8>) -> core::result::Result<Probe, Failure> {
    if !dpx_magic(b) {
        Err(Failure::InvalidData)
    } else if b.len() < 780 {
        Err(eof(780, b.len() as int))
    } else if dpx_word(b, 772) == 0 || dpx_word(b, 776) == 0 {
        Err(Failure::InvalidData)
    } else {
        Ok(Probe {
            format: "dpx_pipe",
            streams: seq![video_stream(0, "dpx", dpx_word(b, 772), dpx_word(b, 776), Some(zero_secs()), None)],
        })
    }
}

/// Probes a DPX image.
pub fn parse_dpx(bytes: &[u8]) -> (r: Result<ProbeDocument>)
    ensures
        probe_outcome(r) == spec_parse_dpx(bytes@),
{
    if !looks_like_dpx(bytes) {
        return Err(invalid_data("missing DPX magic"));
    }
    if bytes.len() < 780 {
        return Err(unexpected_eof(780, bytes.len()));
    }
    let big_endian = tag_at(bytes, 0, &[0x53u8, 0x44, 0x50, 0x58]);
    let width = match read_u32(bytes, 772, big_endian) {
        Ok(v) => v,
        Err(e) => return Err(e),
    };
    let height = match read_u32(bytes, 776, big_endian) {
        Ok(v) => v,
        Err(e) => return Err(e),
    };
    if width == 0 || height == 0 {
        return Err(invalid_data("DPX dimensions must be nonzero"));
    }
    Ok(ProbeDocument::single("dpx_pipe", StreamMetadata::video(0, "dpx", width, height, Some(zero_seconds()), None)))
}

/// Whether `bytes` starts with a DPX magic.
pub fn looks_like_dpx(bytes: &[u8]) -> (r: bool)
    ensures
        r == dpx_magic(bytes@),
{
    tag_at(bytes, 0, &[0x53u8, 0x44, 0x50, 0x58]) || tag_at(bytes, 0, &[0x58u8, 0x50, 0x44, 0x53])
}

fn read_u32(bytes: &[u8], pos: usize, big_endian: bool) -> (r: Result<u32>)
    requires
        pos <= usize::MAX - 4,
    ensures
        read_outcome32(r) == read_result(bytes@, pos as int, 4,
            if big_endian { u32_be(bytes@, pos as int) } else { u32_le(bytes@, pos as int) }),
{
    if pos + 4 > bytes.len() {
        return Err(unexpected_eof(pos + 4, bytes.len()));
    }
    Ok(if big_endian { be32(bytes, pos) } else { le32(bytes, pos) })
}

} // verus!
