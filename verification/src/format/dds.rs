use vstd::prelude::*;
use crate::bytes::{has_tag, le32, read_outcome32, read_result, tag_at, u32_le};
use crate::error::{eof, invalid_data, unexpected_eof, unsupported, Failure, Result, RmpegError};
use crate::metadata::{probe_outcome, video_stream, zero_secs, zero_seconds, Probe, ProbeDocument, StreamMetadata};
use crate::error::{decimal_chars, with_number};

verus! {

/// The probe of a DDS image: "DDS ", header size 124, then height and width.
pub open spec fn spec_parse_dds(b: Seq<u8>) -> core::result::Result<Probe, Failure> {
    if b.len() < 128 {
        Err(eof(128, b.len() as int))
    } else if !has_tag(b, 0, seq![0x44u8, 0x44, 0x53, 0x20]) || u32_le(b, 4) != 124 || u32_le(b, 16) == 0
        || u32_le(b, 12) == 0 {
        Err(Failure::InvalidData)
    } else {
        Ok(Probe {
            format: "dds_pipe",
            streams: seq![video_stream(0, "dds", u32_le(b, 16), u32_le(b, 12), Some(zero_secs()), None)],
        })
    }
}

/// Probes a DDS image.
pub fn parse_dds(bytes: &[u8]) -> (r: Result<ProbeDocument>)
    ensures
        probe_outcome(r) == spec_parse_dds(bytes@),
        bytes@.len() >= 128 && has_tag(bytes@, 0, seq![0x44u8, 0x44, 0x53, 0x20]) && u32_le(bytes@, 4) != 124
            ==> (r matches Err(RmpegError::InvalidData(m))
            && m@ == "unsupported DDS header size "@ + decimal_chars(u32_le(bytes@, 4) as nat)),
{
    if bytes.len() < 128 {
        return Err(unexpected_eof(128, bytes.len()));
    }
    if !tag_at(bytes, 0, &[0x44u8, 0x44, 0x53, 0x20]) {
        return Err(invalid_data("missing DDS signature"));
    }
    let header_size = match read_u32(bytes, 4) {
        Ok(v) => v,
        Err(e) => return Err(e),
    };
    if header_size != 124 {
        return Err(RmpegError::InvalidData(with_number("unsupported DDS header size ", header_size as u64)));
    }
    let height = match read_u32(bytes, 12) {
        Ok(v) => v,
        Err(e) => return Err(e),
    };
    let width = match read_u32(bytes, 16) {
        Ok(v) => v,
        Err(e) => return Err(e),
    };
    if width == 0 || height == 0 {
        return Err(invalid_data("DDS dimensions must be nonzero"));
    }
    Ok(ProbeDocument::single("dds_pipe", StreamMetadata::video(0, "dds", width, height, Some(zero_seconds()), None)))
}

fn read_u32(bytes: &[u8], offset: usize) -> (r: Result<u32>)
    requires
        offset <= usize::MAX - 4,
    ensures
        read_outcome32(r) == read_result(bytes@, offset as int, 4, u32_le(bytes@, offset as int)),
{
    if offset + 4 > bytes.len() {
        return Err(unexpected_eof(offset + 4, bytes.len()));
    }
    Ok(le32(bytes, offset))
}

} // verus!
