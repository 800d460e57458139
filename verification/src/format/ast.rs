use vstd::prelude::*;
use crate::bytes::{be16, be32, has_tag, read_outcome16, read_outcome32, read_result, tag_at, u16_be, u32_be};
use crate::error::{invalid_data, unexpected_eof, Failure, Result};
use crate::metadata::{audio_stream, probe_outcome, secs, Probe, ProbeDocument, Seconds, StreamMetadata};

verus! {

/// Whether `b` is an AST ("STRM") file of at least 24 bytes.
pub open spec fn ast_magic(b: Seq<u8>) -> bool {
    b.len() >= 24 && has_tag(b, 0, seq![0x53u8, 0x54, 0x52, 0x4d])
}

/// The probe of an AST file: big-endian channels, sample rate and sample count.
pub open spec fn spec_parse_ast(b: Seq<u8>) -> core::result::Result<Probe, Failure> {
    if !ast_magic(b) || u16_be(b, 12) == 0 || u32_be(b, 16) == 0 || u32_be(b, 20) == 0 {
        Err(Failure::InvalidData)
    } else {
        Ok(Probe {
            format: "ast",
            streams: seq![audio_stream(0, "adpcm_afc", u32_be(b, 16), u16_be(b, 12), 0,
                secs(u32_be(b, 20), u32_be(b, 16)))],
        })
    }
}

/// Probes an AST file.
pub fn parse_ast(bytes: &[u8]) -> (r: Result<ProbeDocument>)
    ensures
        probe_outcome(r) == spec_parse_ast(bytes@),
{
    if !looks_like_ast(bytes) {
        return Err(invalid_data("missing AST header"));
    }
    let channels = match read_u16_be(bytes, 12) {
        Ok(v) => v,
        Err(e) => return Err(e),
    };
    let sample_rate = match read_u32_be(bytes, 16) {
        Ok(v) => v,
        Err(e) => return Err(e),
    };
    let sample_count = match read_u32_be(bytes, 20) {
        Ok(v) => v,
        Err(e) => return Err(e),
    };
    if channels == 0 || sample_rate == 0 || sample_count == 0 {
        return Err(invalid_data("invalid AST stream metadata"));
    }
    let duration = Seconds { num: sample_count as u128, den: sample_rate as u128 };
    Ok(ProbeDocument::single(
        "ast",
        StreamMetadata::audio(0, "adpcm_afc", sample_rate, channels, 0, duration),
    ))
}

/// Whether `bytes` looks like an AST file.
pub fn looks_like_ast(bytes: &[u8]) -> (r: bool)
    ensures
        r == ast_magic(bytes@),
{
    bytes.len() >= 24 && tag_at(bytes, 0, &[0x53u8, 0x54, 0x52, 0x4d])
}

fn read_u16_be(bytes: &[u8], offset: usize) -> (r: Result<u16>)
    requires
        offset <= usize::MAX - 2,
    ensures
        read_outcome16(r) == read_result(bytes@, offset as int, 2, u16_be(bytes@, offset as int)),
{
    if offset + 2 > bytes.len() {
        return Err(unexpected_eof(offset + 2, bytes.len()));
    }
    Ok(be16(bytes, offset))
}

fn read_u32_be(bytes: &[u8], offset: usize) -> (r: Result<u32>)
    requires
        offset <= usize::MAX - 4,
    ensures
        read_outcome32(r) == read_result(bytes@, offset as int, 4, u32_be(bytes@, offset as int)),
{
    if offset + 4 > bytes.len() {
        return Err(unexpected_eof(offset + 4, bytes.len()));
    }
    Ok(be32(bytes, offset))
}

} // verus!
