use vstd::prelude::*;
use crate::bytes::{wide_mul, has_tag, le16, le32, tag_at, u16_le, u32_le};
use crate::error::{eof, failure, invalid_data, outcome, unexpected_eof, Failure, Result};
use crate::metadata::{audio_stream, probe_outcome, secs, Probe, ProbeDocument, Seconds, StreamMetadata};

verus! {

/// The stream fields an APE header gives, or the failure of their checks.
pub open spec fn ape_metadata(rate: int, channels: int, bits: int, blocks_per_frame: int, final_blocks: int, total_frames: int)
    -> core::result::Result<StreamMetadata, Failure>
{
    if rate == 0 || channels == 0 || bits == 0 {
        Err(Failure::InvalidData)
    } else if blocks_per_frame == 0 || total_frames == 0 {
        Err(Failure::InvalidData)
    } else {
        let last = if final_blocks == 0 { blocks_per_frame } else { final_blocks };
        let total = (total_frames - 1) * blocks_per_frame + last;
        if total > u64::MAX {
            Err(Failure::InvalidData)
        } else {
            Ok(audio_stream(0, "ape", rate, channels, bits, secs(total, rate)))
        }
    }
}

/// The probe of a Monkey's Audio file: the old header (before version 3980) or the
/// descriptor and header of later versions.
pub open spec fn spec_parse_ape(b: Seq<u8>) -> core::result::Result<Probe, Failure> {
    let len = b.len() as int;
    if !has_tag(b, 0, seq![0x4du8, 0x41, 0x43, 0x20]) {
        Err(Failure::InvalidData)
    } else if len < 32 {
        Err(eof(32, len))
    } else {
        let version = u16_le(b, 4);
        let m = if version >= 3980 {
            let d = u32_le(b, 8);
            if u32_le(b, 12) < 24 {
                Err(Failure::InvalidData)
            } else if d + 24 > usize::MAX {
                Err(Failure::InvalidData)
            } else if d + 24 > len {
                Err(eof(d + 24, len))
            } else {
                ape_metadata(u32_le(b, d + 20), u16_le(b, d + 18), u16_le(b, d + 16), u32_le(b, d + 4), u32_le(b, d + 8), u32_le(b, d + 12))
            }
        } else {
            let flags = u16_le(b, 8) as u16;
            let bits: int = if flags & 1u16 != 0 { 8 } else if flags & 8u16 != 0 { 24 } else { 16 };
            let bpf: int = if version >= 3900 || u16_le(b, 6) >= 4000 { 73728 } else { 9216 };
            ape_metadata(u32_le(b, 12), u16_le(b, 10), bits, bpf, u32_le(b, 28), u32_le(b, 24))
        };
        match m {
            Err(e) => Err(e),
            Ok(s) => Ok(Probe { format: "ape", streams: seq![s] }),
        }
    }
}

fn ape_metadata_exec(rate: u32, channels: u16, bits: u16, bpf: u32, final_blocks: u32, total_frames: u32) -> (r: Result<StreamMetadata>)
    ensures
        outcome(r) == ape_metadata(rate as int, channels as int, bits as int, bpf as int, final_blocks as int, total_frames as int),
{
    if rate == 0 || channels == 0 || bits == 0 {
        return Err(invalid_data("APE audio metadata has zero fields"));
    }
    if bpf == 0 || total_frames == 0 {
        return Err(invalid_data("APE frame metadata has zero fields"));
    }
    let last = if final_blocks == 0 { bpf } else { final_blocks };
    let full = wide_mul((total_frames - 1) as u64, bpf as u64);
    assert(full <= 0xffff_ffff * 0xffff_ffff) by (nonlinear_arith)
        requires
            full == ((total_frames - 1) as u64) as int * (bpf as u64) as int,
            total_frames <= 0xffff_ffff,
            bpf <= 0xffff_ffff,
            total_frames >= 1,
    ;
    if full + last as u128 > u64::MAX as u128 {
        return Err(invalid_data("APE sample count overflow"));
    }
    let total = full + last as u128;
    Ok(StreamMetadata::audio(0, "ape", rate, channels, bits, Seconds { num: total, den: rate as u128 }))
}

/// Probes a Monkey's Audio file.
pub fn parse_ape(bytes: &[u8]) -> (r: Result<ProbeDocument>)
    ensures
        probe_outcome(r) == spec_parse_ape(bytes@),
{
    if !tag_at(bytes, 0, &[0x4du8, 0x41, 0x43, 0x20]) {
        return Err(invalid_data("missing APE magic header"));
    }
    let len = bytes.len();
    if len < 32 {
        return Err(unexpected_eof(32, len));
    }
    let version = le16(bytes, 4);
    let m = if version >= 3980 {
        let d = le32(bytes, 8) as usize;
        if le32(bytes, 12) < 24 {
            return Err(invalid_data("APE header is shorter than expected"));
        }
        if d > usize::MAX - 24 {
            return Err(invalid_data("APE header offset overflow"));
        }
        if d + 24 > len {
            return Err(unexpected_eof(d + 24, len));
        }
        ape_metadata_exec(le32(bytes, d + 20), le16(bytes, d + 18), le16(bytes, d + 16), le32(bytes, d + 4), le32(bytes, d + 8), le32(bytes, d + 12))
    } else {
        let flags = le16(bytes, 8);
        let bits: u16 = if flags & 1 != 0 { 8 } else if flags & 8 != 0 { 24 } else { 16 };
        let bpf: u32 = if version >= 3900 || le16(bytes, 6) >= 4000 { 73728 } else { 9216 };
        ape_metadata_exec(le32(bytes, 12), le16(bytes, 10), bits, bpf, le32(bytes, 28), le32(bytes, 24))
    };
    match m {
        Err(e) => Err(e),
        Ok(s) => Ok(ProbeDocument::single("ape", s)),
    }
}

} // verus!
