use vstd::prelude::*;
use crate::bytes::{be16, be32, sat, sat_add, first_tag, find_tag, has_tag, le32, read_outcome16, read_outcome32, read_result, tag_at, u16_be, u32_be, u32_le};
use crate::error::{eof, failure, invalid_data, unexpected_eof, Failure, Result};
use crate::metadata::{audio_stream, probe_outcome, secs, Probe, ProbeDocument, Seconds, StreamMetadata};

verus! {

/// Whether `b` starts with a CSTM, FSTM or RSTM magic and a byte-order mark.
pub open spec fn bfstm_magic(b: Seq<u8>) -> bool {
    &&& b.len() >= 0x70
    &&& has_tag(b, 0, seq![0x43u8, 0x53, 0x54, 0x4d]) || has_tag(b, 0, seq![0x46u8, 0x53, 0x54, 0x4d]) || has_tag(b, 0, seq![0x52u8, 0x53, 0x54, 0x4d])
    &&& has_tag(b, 4, seq![0xffu8, 0xfe]) || has_tag(b, 4, seq![0xfeu8, 0xff])
}

/// The section that holds the stream information: "HEAD" in BRSTM, "INFO" otherwise.
pub open spec fn bfstm_section(b: Seq<u8>) -> Seq<u8> {
    if has_tag(b, 0, seq![0x52u8, 0x53, 0x54, 0x4d]) { seq![0x48u8, 0x45, 0x41, 0x44] } else { seq![0x49u8, 0x4e, 0x46, 0x4f] }
}

/// The stream information 0x20 bytes past the first occurrence of the info section tag:
/// channels, sample rate, sample count.
pub open spec fn bfstm_info(b: Seq<u8>) -> core::result::Result<(int, int, int), Failure> {
    match first_tag(b, bfstm_section(b)) {
        None => Err(Failure::InvalidData),
        Some(pos) => {
            let base = pos + 0x20;
            let channels = b[base + 2] as int;
            let rate = if has_tag(b, 0, seq![0x43u8, 0x53, 0x54, 0x4d]) {
                u32_le(b, base + 4)
            } else if has_tag(b, 0, seq![0x46u8, 0x53, 0x54, 0x4d]) {
                u32_be(b, base + 4)
            } else {
                u16_be(b, base + 4)
            };
            let count = if has_tag(b, 0, seq![0x43u8, 0x53, 0x54, 0x4d]) { u32_le(b, base + 12) } else { u32_be(b, base + 12) };
            if pos + 0x20 > usize::MAX {
                Err(Failure::InvalidData)
            } else if base + 0x10 > b.len() {
                Err(eof(sat(base + 0x10), b.len() as int))
            } else if channels == 0 || rate == 0 || count == 0 {
                Err(Failure::InvalidData)
            } else {
                Ok((channels, rate, count))
            }
        },
    }
}

/// The probe of a BFSTM, BCSTM or BRSTM stream.
pub open spec fn spec_parse_bfstm_or_brstm(b: Seq<u8>) -> core::result::Result<Probe, Failure> {
    if !bfstm_magic(b) {
        Err(Failure::InvalidData)
    } else {
        match bfstm_info(b) {
            Err(e) => Err(e),
            Ok(info) => Ok(Probe {
                format: if has_tag(b, 0, seq![0x52u8, 0x53, 0x54, 0x4d]) { "brstm" } else { "bfstm" },
                streams: seq![audio_stream(0,
                    if has_tag(b, 0, seq![0x43u8, 0x53, 0x54, 0x4d]) { "adpcm_thp_le" } else { "adpcm_thp" },
                    info.1, info.0, 0, secs(info.2, info.1))],
            }),
        }
    }
}

/// Probes a Nintendo BFSTM/BCSTM/BRSTM stream.
pub fn parse_bfstm_or_brstm(bytes: &[u8]) -> (r: Result<ProbeDocument>)
    ensures
        probe_outcome(r) == spec_parse_bfstm_or_brstm(bytes@),
{
    if !looks_like_bfstm_or_brstm(bytes) {
        return Err(invalid_data("missing BFSTM/BRSTM header"));
    }
    let stream = match read_stream_info(bytes) {
        Ok(v) => v,
        Err(e) => return Err(e),
    };
    let (format, codec_name) = if tag_at(bytes, 0, &[0x43u8, 0x53, 0x54, 0x4d]) {
        ("bfstm", "adpcm_thp_le")
    } else if tag_at(bytes, 0, &[0x46u8, 0x53, 0x54, 0x4d]) {
        ("bfstm", "adpcm_thp")
    } else {
        ("brstm", "adpcm_thp")
    };
    let duration = Seconds { num: stream.sample_count as u128, den: stream.sample_rate as u128 };
    Ok(ProbeDocument::single(
        format,
        StreamMetadata::audio(0, codec_name, stream.sample_rate, stream.channels, 0, duration),
    ))
}

/// Whether `bytes` looks like a BFSTM/BRSTM stream.
pub fn looks_like_bfstm_or_brstm(bytes: &[u8]) -> (r: bool)
    ensures
        r == bfstm_magic(bytes@),
{
    bytes.len() >= 0x70 && (tag_at(bytes, 0, &[0x43u8, 0x53, 0x54, 0x4d]) || tag_at(bytes, 0, &[0x46u8, 0x53, 0x54, 0x4d])
        || tag_at(bytes, 0, &[0x52u8, 0x53, 0x54, 0x4d])) && (tag_at(bytes, 4, &[0xffu8, 0xfe])
        || tag_at(bytes, 4, &[0xfeu8, 0xff]))
}

struct StreamInfo {
    sample_rate: u32,
    channels: u16,
    sample_count: u32,
}

fn read_stream_info(bytes: &[u8]) -> (r: Result<StreamInfo>)
    requires
        bfstm_magic(bytes@),
    ensures
        match r {
            Ok(s) => bfstm_info(bytes@) == Ok::<(int, int, int), Failure>(
                (s.channels as int, s.sample_rate as int, s.sample_count as int)),
            Err(e) => bfstm_info(bytes@) == Err::<(int, int, int), Failure>(failure(e)),
        },
{
    let rstm = tag_at(bytes, 0, &[0x52u8, 0x53, 0x54, 0x4d]);
    let section: &[u8] = if rstm { &[0x48u8, 0x45, 0x41, 0x44] } else { &[0x49u8, 0x4e, 0x46, 0x4f] };
    let pos = match find_section(bytes, section) {
        Ok(v) => v,
        Err(e) => return Err(e),
    };
    if pos > usize::MAX - 0x20 {
        return Err(invalid_data("BFSTM stream offset overflow"));
    }
    let base = pos + 0x20;
    if base > bytes.len() || bytes.len() - base < 0x10 {
        return Err(unexpected_eof(sat_add(base, 0x10), bytes.len()));
    }
    let channels = bytes[base + 2] as u16;
    let sample_rate = if tag_at(bytes, 0, &[0x43u8, 0x53, 0x54, 0x4d]) {
        match read_u32_le(bytes, base + 4) {
        Ok(v) => v,
        Err(e) => return Err(e),
    }
    } else if tag_at(bytes, 0, &[0x46u8, 0x53, 0x54, 0x4d]) {
        match read_u32_be(bytes, base + 4) {
        Ok(v) => v,
        Err(e) => return Err(e),
    }
    } else {
        let v = match read_u16_be(bytes, base + 4) {
        Ok(v) => v,
        Err(e) => return Err(e),
    };
        v as u32
    };
    let sample_count = if tag_at(bytes, 0, &[0x43u8, 0x53, 0x54, 0x4d]) {
        match read_u32_le(bytes, base + 12) {
        Ok(v) => v,
        Err(e) => return Err(e),
    }
    } else {
        match read_u32_be(bytes, base + 12) {
        Ok(v) => v,
        Err(e) => return Err(e),
    }
    };
    if channels == 0 || sample_rate == 0 || sample_count == 0 {
        return Err(invalid_data("invalid BFSTM stream metadata"));
    }
    Ok(StreamInfo { sample_rate, channels, sample_count })
}

fn find_section(bytes: &[u8], section: &[u8]) -> (r: Result<usize>)
    requires
        section@.len() == 4,
    ensures
        match r {
            Ok(p) => first_tag(bytes@, section@) == Some(p as int),
            Err(e) => first_tag(bytes@, section@) is None && e is InvalidData,
        },
{
    match find_tag(bytes, section) {
        Some(p) => Ok(p),
        None => Err(invalid_data("missing BFSTM info section")),
    }
}

fn read_u16_be(bytes: &[u8], offset: usize) -> (r: Result<u16>)
    requires
        offset <= usize::MAX - 2,
    ensures
        read_outcome16(r) == read_result(bytes@, offset as int, 2, u16_be(bytes@, offset as int)),
{
    if offset + 2 > bytes.len() {
        return Err(unexpected_eof(offset + 2, bytes.len()));
    }
    Ok(be16(bytes, offset))
}

fn read_u32_le(bytes: &[u8], offset: usize) -> (r: Result<u32>)
    requires
        offset <= usize::MAX - 4,
    ensures
        read_outcome32(r) == read_result(bytes@, offset as int, 4, u32_le(bytes@, offset as int)),
{
    if offset + 4 > bytes.len() {
        return Err(unexpected_eof(offset + 4, bytes.len()));
    }
    Ok(le32(bytes, offset))
}

fn read_u32_be(bytes: &[u8], offset: usize) -> (r: Result<u32>)
    requires
        offset <= usize::MAX - 4,
    ensures
        read_outcome32(r) == read_result(bytes@, offset as int, 4, u32_be(bytes@, offset as int)),
{
    if offset + 4 > bytes.len() {
        return Err(unexpected_eof(offset + 4, bytes.len()));
    }
    Ok(be32(bytes, offset))
}

} // verus!
