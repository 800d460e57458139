use vstd::prelude::*;
use crate::bytes::{wide_mul, has_tag, le16, le32, read_outcome16, read_outcome32, read_result, tag_at, u16_le, u32_le};
use crate::error::{eof, invalid_data, unexpected_eof, unsupported, Failure, Result, RmpegError};
use crate::metadata::{probe_outcome, secs, video_stream, zero_secs, zero_seconds, Probe, ProbeDocument, Seconds, StreamMetadata};
use crate::error::{error_text, join3, lossy_text, with_number};

verus! {

/// The codec an IVF fourcc at `p` names, if it is one this probe knows.
pub open spec fn ivf_codec(b: Seq<u8>, p: int) -> Option<&'static str> {
    if has_tag(b, p, seq![0x56u8, 0x50, 0x38, 0x30]) {
        Some("vp8")
    } else if has_tag(b, p, seq![0x56u8, 0x50, 0x39, 0x30]) {
        Some("vp9")
    } else if has_tag(b, p, seq![0x41u8, 0x56, 0x30, 0x31]) {
        Some("av1")
    } else {
        None
    }
}

/// The probe of an IVF file.
pub open spec fn spec_parse_ivf(b: Seq<u8>) -> core::result::Result<Probe, Failure> {
    if b.len() < 32 {
        Err(eof(32, b.len() as int))
    } else if !has_tag(b, 0, seq![0x44u8, 0x4b, 0x49, 0x46]) || u16_le(b, 4) != 0 || u16_le(b, 6) < 32 {
        Err(Failure::InvalidData)
    } else if ivf_codec(b, 8) is None {
        Err(Failure::Unsupported)
    } else if u16_le(b, 12) == 0 || u16_le(b, 14) == 0 || u32_le(b, 16) == 0 {
        Err(Failure::InvalidData)
    } else {
        Ok(Probe {
            format: "ivf",
            streams: seq![video_stream(0, ivf_codec(b, 8)->0, u16_le(b, 12), u16_le(b, 14),
                Some(if u32_le(b, 20) == 0 { zero_secs() } else { secs(u32_le(b, 24) * u32_le(b, 20), u32_le(b, 16)) }),
                None)],
        })
    }
}

/// The message of an unknown IVF codec: `IVF codec `, the FOURCC as text, then
/// ` is not supported`.
pub open spec fn ivf_codec_text(m: Seq<char>) -> bool {
    exists|shown: Seq<char>| m == "IVF codec "@ + shown + " is not supported"@
}

/// Probes an IVF file: duration is frame count times the timebase.
pub fn parse_ivf(bytes: &[u8]) -> (r: Result<ProbeDocument>)
    ensures
        probe_outcome(r) == spec_parse_ivf(bytes@),
        r matches Err(RmpegError::Unsupported(m)) ==> ivf_codec_text(m@),
{
    if bytes.len() < 32 {
        return Err(unexpected_eof(32, bytes.len()));
    }
    if !tag_at(bytes, 0, &[0x44u8, 0x4b, 0x49, 0x46]) {
        return Err(invalid_data("missing IVF signature"));
    }
    let version = match read_u16(bytes, 4) {
        Ok(v) => v,
        Err(e) => return Err(e),
    };
    if version != 0 {
        return Err(RmpegError::InvalidData(with_number("unsupported IVF version ", version as u64)));
    }
    let header_size = match read_u16(bytes, 6) {
        Ok(v) => v,
        Err(e) => return Err(e),
    };
    if header_size < 32 {
        return Err(RmpegError::InvalidData(with_number("invalid IVF header size ", header_size as u64)));
    }
    let codec_name = match codec_name(bytes, 8) {
        Ok(v) => v,
        Err(e) => return Err(e),
    };
    let width = match read_u16(bytes, 12) {
        Ok(v) => v,
        Err(e) => return Err(e),
    } as u32;
    let height = match read_u16(bytes, 14) {
        Ok(v) => v,
        Err(e) => return Err(e),
    } as u32;
    let timebase_den = match read_u32(bytes, 16) {
        Ok(v) => v,
        Err(e) => return Err(e),
    };
    let timebase_num = match read_u32(bytes, 20) {
        Ok(v) => v,
        Err(e) => return Err(e),
    };
    let frame_count = match read_u32(bytes, 24) {
        Ok(v) => v,
        Err(e) => return Err(e),
    };
    if width == 0 || height == 0 {
        return Err(invalid_data("IVF dimensions must be nonzero"));
    }
    if timebase_den == 0 {
        return Err(invalid_data("IVF timebase denominator must be nonzero"));
    }
    let duration = if timebase_num == 0 {
        zero_seconds()
    } else {
        Seconds { num: wide_mul(frame_count as u64, timebase_num as u64), den: timebase_den as u128 }
    };
    Ok(ProbeDocument::single("ivf", StreamMetadata::video(0, codec_name, width, height, Some(duration), None)))
}

fn codec_name(bytes: &[u8], pos: usize) -> (r: Result<&'static str>)
    requires
        pos + 4 <= bytes@.len(),
    ensures
        match r {
            Ok(name) => ivf_codec(bytes@, pos as int) == Some(name),
            Err(e) => ivf_codec(bytes@, pos as int) is None && e is Unsupported && ivf_codec_text(error_text(e)),
        },
{
    if tag_at(bytes, pos, &[0x56u8, 0x50, 0x38, 0x30]) {
        Ok("vp8")
    } else if tag_at(bytes, pos, &[0x56u8, 0x50, 0x39, 0x30]) {
        Ok("vp9")
    } else if tag_at(bytes, pos, &[0x41u8, 0x56, 0x30, 0x31]) {
        Ok("av1")
    } else {
        let shown = lossy_text(&[bytes[pos], bytes[pos + 1], bytes[pos + 2], bytes[pos + 3]]);
        let m = join3("IVF codec ", shown.as_str(), " is not supported");
        assert(m@ == "IVF codec "@ + shown@ + " is not supported"@);
        Err(RmpegError::Unsupported(m))
    }
}

fn read_u16(bytes: &[u8], offset: usize) -> (r: Result<u16>)
    requires
        offset <= usize::MAX - 2,
    ensures
        read_outcome16(r) == read_result(bytes@, offset as int, 2, u16_le(bytes@, offset as int)),
{
    if offset + 2 > bytes.len() {
        return Err(unexpected_eof(offset + 2, bytes.len()));
    }
    Ok(le16(bytes, offset))
}

fn read_u32(bytes: &[u8], offset: usize) -> (r: Result<u32>)
    requires
        offset <= usize::MAX - 4,
    ensures
        read_outcome32(r) == read_result(bytes@, offset as int, 4, u32_le(bytes@, offset as int)),
{
    if offset + 4 > bytes.len() {
        return Err(unexpected_eof(offset + 4, bytes.len()));
    }
    Ok(le32(bytes, offset))
}

} // verus!
