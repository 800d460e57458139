use vstd::prelude::*;
use crate::bytes::{be16, be32, be64, sat, sat_add, first_tag, find_tag, u64_be, has_tag, read_outcome16, read_outcome32, read_outcome64, read_result, tag_at, u16_be, u32_be};
use crate::error::{eof, failure, invalid_data, unexpected_eof, Failure, Result, RmpegError};
use crate::metadata::{audio_stream, probe_outcome, secs, Probe, ProbeDocument, Seconds, StreamMetadata};
use crate::error::{join3, lossy_text};

verus! {

/// Whether `b` is an IFF "FRM8" file of form "DSD ".
pub open spec fn dsdiff_magic(b: Seq<u8>) -> bool {
    b.len() >= 16 && has_tag(b, 0, seq![0x46u8, 0x52, 0x4d, 0x38]) && has_tag(b, 12, seq![0x44u8, 0x53, 0x44, 0x20])
}

/// The payload of the first chunk whose id `id` occurs in `b` (searched anywhere in the file).
pub open spec fn dsdiff_chunk(b: Seq<u8>, id: Seq<u8>) -> core::result::Result<Seq<u8>, Failure> {
    match first_tag(b, id) {
        None => Err(Failure::InvalidData),
        Some(pos) => if pos + 12 > b.len() {
            Err(eof(sat(pos + 12), b.len() as int))
        } else if u64_be(b, pos + 4) > usize::MAX || pos + 12 + u64_be(b, pos + 4) > usize::MAX {
            Err(Failure::InvalidData)
        } else if pos + 12 + u64_be(b, pos + 4) > b.len() {
            Err(eof(pos + 12 + u64_be(b, pos + 4), b.len() as int))
        } else {
            Ok(b.subrange(pos + 12, pos + 12 + u64_be(b, pos + 4)))
        },
    }
}

/// The probe of a DSDIFF file carrying DST audio.
pub open spec fn spec_parse_dsdiff(b: Seq<u8>) -> core::result::Result<Probe, Failure> {
    if !dsdiff_magic(b) {
        Err(Failure::InvalidData)
    } else {
        match dsdiff_chunk(b, seq![0x46u8, 0x53, 0x20, 0x20]) {
            Err(e) => Err(e),
            Ok(fs) => if fs.len() < 4 {
                Err(eof(4, fs.len() as int))
            } else {
                match dsdiff_chunk(b, seq![0x43u8, 0x48, 0x4e, 0x4c]) {
                    Err(e) => Err(e),
                    Ok(chnl) => if chnl.len() < 2 {
                        Err(eof(2, chnl.len() as int))
                    } else {
                        match dsdiff_chunk(b, seq![0x46u8, 0x52, 0x54, 0x45]) {
                            Err(e) => Err(e),
                            Ok(frte) => if frte.len() < 4 {
                                Err(eof(4, frte.len() as int))
                            } else if frte.len() < 6 {
                                Err(eof(6, frte.len() as int))
                            } else if u32_be(fs, 0) / 8 == 0 || u16_be(chnl, 0) == 0 || u32_be(frte, 0) == 0
                                || u16_be(frte, 4) == 0 {
                                Err(Failure::InvalidData)
                            } else {
                                Ok(Probe {
                                    format: "iff",
                                    streams: seq![audio_stream(0, "dst", u32_be(fs, 0) / 8, u16_be(chnl, 0), 0,
                                        secs(u32_be(frte, 0), u16_be(frte, 4)))],
                                })
                            },
                        }
                    },
                }
            },
        }
    }
}

/// Probes a DSDIFF file.
pub fn parse_dsdiff(bytes: &[u8]) -> (r: Result<ProbeDocument>)
    ensures
        probe_outcome(r) == spec_parse_dsdiff(bytes@),
{
    if !looks_like_dsdiff(bytes) {
        return Err(invalid_data("missing DSDIFF header"));
    }
    let fs = match find_chunk_payload(bytes, &[0x46u8, 0x53, 0x20, 0x20]) {
        Ok(v) => v,
        Err(e) => return Err(e),
    };
    let dsd_rate = match read_u32_be(fs, 0) {
        Ok(v) => v,
        Err(e) => return Err(e),
    };
    let sample_rate = dsd_rate / 8;
    let chnl = match find_chunk_payload(bytes, &[0x43u8, 0x48, 0x4e, 0x4c]) {
        Ok(v) => v,
        Err(e) => return Err(e),
    };
    let channels = match read_u16_be(chnl, 0) {
        Ok(v) => v,
        Err(e) => return Err(e),
    };
    let frte = match find_chunk_payload(bytes, &[0x46u8, 0x52, 0x54, 0x45]) {
        Ok(v) => v,
        Err(e) => return Err(e),
    };
    let frame_count = match read_u32_be(frte, 0) {
        Ok(v) => v,
        Err(e) => return Err(e),
    };
    let frame_rate = match read_u16_be(frte, 4) {
        Ok(v) => v,
        Err(e) => return Err(e),
    } as u32;
    if sample_rate == 0 || channels == 0 || frame_count == 0 || frame_rate == 0 {
        return Err(invalid_data("invalid DSDIFF DST metadata"));
    }
    let duration = Seconds { num: frame_count as u128, den: frame_rate as u128 };
    Ok(ProbeDocument::single("iff", StreamMetadata::audio(0, "dst", sample_rate, channels, 0, duration)))
}

/// Whether `bytes` looks like a DSDIFF file.
pub fn looks_like_dsdiff(bytes: &[u8]) -> (r: bool)
    ensures
        r == dsdiff_magic(bytes@),
{
    bytes.len() >= 16 && tag_at(bytes, 0, &[0x46u8, 0x52, 0x4d, 0x38]) && tag_at(bytes, 12, &[0x44u8, 0x53, 0x44, 0x20])
}

fn find_chunk_payload<'a>(bytes: &'a [u8], id: &[u8]) -> (r: Result<&'a [u8]>)
    requires
        id@.len() == 4,
    ensures
        match r {
            Ok(p) => dsdiff_chunk(bytes@, id@) == Ok::<Seq<u8>, Failure>(p@),
            Err(e) => dsdiff_chunk(bytes@, id@) == Err::<Seq<u8>, Failure>(failure(e)),
        },
{
    let pos = match find_bytes(bytes, id) {
        Some(p) => p,
        None => {
            let shown = lossy_text(id);
            return Err(RmpegError::InvalidData(join3("missing DSDIFF ", shown.as_str(), " chunk")));
        },
    };
    if pos as u128 + 12 > bytes.len() as u128 {
        return Err(unexpected_eof(sat_add(pos, 12), bytes.len()));
    }
    let size = match read_u64_be(bytes, pos + 4) {
        Ok(v) => v,
        Err(e) => return Err(e),
    };
    if size as u128 > usize::MAX as u128 {
        return Err(invalid_data("DSDIFF chunk too large"));
    }
    let start = pos + 12;
    if size as u128 + start as u128 > usize::MAX as u128 {
        return Err(invalid_data("DSDIFF chunk size overflow"));
    }
    let end = start + size as usize;
    if end > bytes.len() {
        return Err(unexpected_eof(end, bytes.len()));
    }
    Ok(&bytes[start..end])
}

fn find_bytes(haystack: &[u8], needle: &[u8]) -> (r: Option<usize>)
    requires
        needle@.len() > 0,
    ensures
        match r {
            Some(p) => first_tag(haystack@, needle@) == Some(p as int),
            None => first_tag(haystack@, needle@) is None,
        },
{
    find_tag(haystack, needle)
}

fn read_u16_be(bytes: &[u8], offset: usize) -> (r: Result<u16>)
    requires
        offset <= usize::MAX - 2,
    ensures
        read_outcome16(r) == read_result(bytes@, offset as int, 2, u16_be(bytes@, offset as int)),
{
    if offset + 2 > bytes.len() {
        return Err(unexpected_eof(offset + 2, bytes.len()));
    }
    Ok(be16(bytes, offset))
}

fn read_u32_be(bytes: &[u8], offset: usize) -> (r: Result<u32>)
    requires
        offset <= usize::MAX - 4,
    ensures
        read_outcome32(r) == read_result(bytes@, offset as int, 4, u32_be(bytes@, offset as int)),
{
    if offset + 4 > bytes.len() {
        return Err(unexpected_eof(offset + 4, bytes.len()));
    }
    Ok(be32(bytes, offset))
}

fn read_u64_be(bytes: &[u8], offset: usize) -> (r: Result<u64>)
    requires
        offset <= usize::MAX - 8,
    ensures
        read_outcome64(r) == read_result(bytes@, offset as int, 8, u64_be(bytes@, offset as int)),
{
    if offset + 8 > bytes.len() {
        return Err(unexpected_eof(offset + 8, bytes.len()));
    }
    Ok(be64(bytes, offset))
}

} // verus!
