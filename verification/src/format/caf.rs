use vstd::prelude::*;
use crate::bytes::{be32, be64, u64_be, wide_mul, has_tag, read_outcome32, read_outcome64, read_result, tag_at, u32_be};
use crate::error::{eof, failure, invalid_data, unexpected_eof, unsupported, Failure, Result, RmpegError};
use crate::metadata::{audio_stream, probe_outcome, secs, zero_secs, zero_seconds, Probe, ProbeDocument, Seconds, StreamMetadata};
use crate::error::{join3, lossy_text};

verus! {

/// What the chunks of a CAF file have declared so far.
pub struct CafState {
    pub sample_rate: Option<u32>,
    pub codec_name: Option<&'static str>,
    pub channels: Option<u16>,
    pub bits_per_sample: Option<u16>,
    pub bytes_per_packet: Option<u32>,
    pub frames_per_packet: Option<u32>,
    pub packet_frames: Option<u64>,
    pub priming_frames: Option<u32>,
    pub remainder_frames: Option<u32>,
    pub data_size: Option<u64>,
}

/// The state before any chunk has been read.
pub open spec fn caf_empty() -> CafState {
    CafState {
        sample_rate: None,
        codec_name: None,
        channels: None,
        bits_per_sample: None,
        bytes_per_packet: None,
        frames_per_packet: None,
        packet_frames: None,
        priming_frames: None,
        remainder_frames: None,
        data_size: None,
    }
}

/// An IEEE-754 double, given by its bit pattern, rounded to the nearest integer (ties away
/// from zero) and converted to `u32` with saturation: NaN and negatives give 0.
pub open spec fn f64_bits_round_u32(bits: u64) -> int {
    let exp = ((bits >> 52u64) & 0x7ffu64) as int;
    let frac = (bits & 0xf_ffff_ffff_ffffu64) as u128;
    let mant: u128 = if exp == 0 { frac } else { frac | 0x10_0000_0000_0000u128 };
    let shift = if exp == 0 { 1074 } else { 1075 - exp };
    if exp == 0x7ff {
        if frac != 0 || bits >> 63u64 == 1 { 0 } else { u32::MAX as int }
    } else if bits >> 63u64 == 1 {
        0
    } else if shift <= 0 || shift > 120 {
        if shift <= 0 && mant != 0 { u32::MAX as int } else { 0 }
    } else {
        let rounded = (((mant + (1u128 << ((shift - 1) as u128))) as u128) >> (shift as u128)) as int;
        if rounded > u32::MAX { u32::MAX as int } else { rounded }
    }
}

/// The codec a CAF description's format id at 8 names.
pub open spec fn caf_codec(d: Seq<u8>) -> Option<&'static str> {
    if has_tag(d, 8, seq![0x61u8, 0x61, 0x63, 0x20]) {
        Some("aac")
    } else if has_tag(d, 8, seq![0x6fu8, 0x70, 0x75, 0x73]) {
        Some("opus")
    } else if has_tag(d, 8, seq![0x6cu8, 0x70, 0x63, 0x6d]) {
        Some("pcm_s16be")
    } else {
        None
    }
}

/// The state after a "desc" chunk with payload `d`.
pub open spec fn caf_desc(d: Seq<u8>, st: CafState) -> core::result::Result<CafState, Failure> {
    if d.len() < 32 {
        Err(eof(32, d.len() as int))
    } else if caf_codec(d) is None || u32_be(d, 24) > u16::MAX || u32_be(d, 28) > u16::MAX {
        Err(Failure::InvalidData)
    } else {
        Ok(CafState {
            sample_rate: Some(f64_bits_round_u32(u64_be(d, 0) as u64) as u32),
            codec_name: caf_codec(d),
            bytes_per_packet: Some(u32_be(d, 16) as u32),
            frames_per_packet: Some(u32_be(d, 20) as u32),
            channels: Some(u32_be(d, 24) as u16),
            bits_per_sample: Some(u32_be(d, 28) as u16),
            ..st
        })
    }
}

/// The state after a "pakt" chunk with payload `d`.
pub open spec fn caf_pakt(d: Seq<u8>, st: CafState) -> core::result::Result<CafState, Failure> {
    if d.len() < 24 {
        Err(eof(24, d.len() as int))
    } else {
        Ok(CafState {
            packet_frames: Some(u64_be(d, 8) as u64),
            priming_frames: Some(u32_be(d, 16) as u32),
            remainder_frames: Some(u32_be(d, 20) as u32),
            ..st
        })
    }
}

/// The state after walking the chunks from `pos`; the walk stops at a chunk with a
/// negative size or one that runs past the end.
pub open spec fn caf_walk(b: Seq<u8>, pos: int, st: CafState) -> core::result::Result<CafState, Failure>
    decreases b.len() - pos,
{
    let size = u64_be(b, pos + 4);
    let start = pos + 12;
    let end = start + size;
    if pos < 0 || pos + 12 > b.len() || size >= 0x8000_0000_0000_0000 {
        Ok(st)
    } else if end > usize::MAX {
        Err(Failure::InvalidData)
    } else if end > b.len() {
        Ok(st)
    } else {
        let d = b.subrange(start, end);
        let next = if has_tag(b, pos, seq![0x64u8, 0x65, 0x73, 0x63]) {
            caf_desc(d, st)
        } else if has_tag(b, pos, seq![0x70u8, 0x61, 0x6b, 0x74]) {
            caf_pakt(d, st)
        } else if has_tag(b, pos, seq![0x64u8, 0x61, 0x74, 0x61]) {
            Ok(CafState { data_size: Some(size as u64), ..st })
        } else {
            Ok(st)
        };
        match next {
            Err(e) => Err(e),
            Ok(st2) => caf_walk(b, end, st2),
        }
    }
}

/// `a + b` saturated at the largest `u64`.
pub open spec fn sat64(v: int) -> int {
    if v > u64::MAX { u64::MAX as int } else { v }
}

/// The duration the chunks describe: from the packet table when there is one, else from
/// the data size and packet sizes, else zero.
pub open spec fn caf_duration_spec(st: CafState, sample_rate: int) -> Seconds {
    match st.packet_frames {
        Some(pf) => secs(sat64(sat64(pf + (match st.priming_frames { Some(p) => p as int, None => 0 }))
            + (match st.remainder_frames { Some(r) => r as int, None => 0 })), sample_rate),
        None => match (st.data_size, st.bytes_per_packet, st.frames_per_packet) {
            (Some(ds), Some(bpp), Some(fpp)) => if bpp != 0 {
                secs(ds * fpp, bpp * sample_rate)
            } else {
                zero_secs()
            },
            _ => zero_secs(),
        },
    }
}

/// The probe of a Core Audio Format file.
pub open spec fn spec_parse_caf(b: Seq<u8>) -> core::result::Result<Probe, Failure> {
    if !has_tag(b, 0, seq![0x63u8, 0x61, 0x66, 0x66]) {
        Err(Failure::InvalidData)
    } else {
        match caf_walk(b, 8, caf_empty()) {
            Err(e) => Err(e),
            Ok(st) => match (st.sample_rate, st.codec_name) {
                (Some(sr), Some(codec)) => if sr == 0 {
                    Err(Failure::InvalidData)
                } else {
                    Ok(Probe {
                        format: "caf",
                        streams: seq![audio_stream(0, codec, sr as int,
                            match st.channels { Some(c) => c as int, None => 0 },
                            match st.bits_per_sample { Some(c) => c as int, None => 0 },
                            caf_duration_spec(st, sr as int))],
                    })
                },
                _ => Err(Failure::InvalidData),
            },
        }
    }
}

/// Probes a CAF file.
pub fn parse_caf(bytes: &[u8]) -> (r: Result<ProbeDocument>)
    ensures
        probe_outcome(r) == spec_parse_caf(bytes@),
{
    if !looks_like_caf(bytes) {
        return Err(invalid_data("missing CAF header"));
    }
    let mut state = CafState {
        sample_rate: None,
        codec_name: None,
        channels: None,
        bits_per_sample: None,
        bytes_per_packet: None,
        frames_per_packet: None,
        packet_frames: None,
        priming_frames: None,
        remainder_frames: None,
        data_size: None,
    };
    let mut pos: usize = 8;
    while pos <= bytes.len() && bytes.len() - pos >= 12
        invariant_except_break
            caf_walk(bytes@, 8, caf_empty()) == caf_walk(bytes@, pos as int, state),
        invariant
            8 <= pos,
            has_tag(bytes@, 0, seq![0x63u8, 0x61, 0x66, 0x66]),
        ensures
            caf_walk(bytes@, 8, caf_empty()) == Ok::<CafState, Failure>(state),
        decreases bytes.len() - pos,
    {
        let size = match read_i64_be(bytes, pos + 4) {
        Ok(v) => v,
        Err(e) => return Err(e),
    };
        if size < 0 {
            break;
        }
        let data_start = pos + 12;
        if size as u128 + data_start as u128 > usize::MAX as u128 {
            return Err(invalid_data("CAF chunk size overflow"));
        }
        let data_end = data_start + size as usize;
        if data_end > bytes.len() {
            break;
        }
        let data = &bytes[data_start..data_end];
        let ghost st0 = state;
        if tag_at(bytes, pos, &[0x64u8, 0x65, 0x73, 0x63]) {
            match parse_desc(data, &mut state) {
                Ok(()) => {},
                Err(e) => {
                    assert(data@ == bytes@.subrange(pos + 12, pos + 12 + size));
                    assert(caf_walk(bytes@, pos as int, st0) == Err::<CafState, Failure>(failure(e)));
                    return Err(e);
                },
            }
        } else if tag_at(bytes, pos, &[0x70u8, 0x61, 0x6b, 0x74]) {
            match parse_pakt(data, &mut state) {
                Ok(()) => {},
                Err(e) => {
                    assert(data@ == bytes@.subrange(pos + 12, pos + 12 + size));
                    assert(caf_walk(bytes@, pos as int, st0) == Err::<CafState, Failure>(failure(e)));
                    return Err(e);
                },
            }
        } else if tag_at(bytes, pos, &[0x64u8, 0x61, 0x74, 0x61]) {
            state.data_size = Some(size as u64);
        }
        pos = data_end;
    }
    let sample_rate = match state.sample_rate {
        Some(sr) => if sr != 0 { sr } else { return Err(invalid_data("CAF sample rate missing")) },
        None => return Err(invalid_data("CAF sample rate missing")),
    };
    let codec_name = match state.codec_name {
        Some(c) => c,
        None => return Err(invalid_data("CAF codec missing")),
    };
    let duration = caf_duration(&state, sample_rate);
    let channels = match state.channels { Some(c) => c, None => 0 };
    let bits = match state.bits_per_sample { Some(c) => c, None => 0 };
    Ok(ProbeDocument::single("caf", StreamMetadata::audio(0, codec_name, sample_rate, channels, bits, duration)))
}

/// Whether `bytes` starts with "caff".
pub fn looks_like_caf(bytes: &[u8]) -> (r: bool)
    ensures
        r == has_tag(bytes@, 0, seq![0x63u8, 0x61, 0x66, 0x66]),
{
    tag_at(bytes, 0, &[0x63u8, 0x61, 0x66, 0x66])
}

fn f64_round_u32(bits: u64) -> (r: u32)
    ensures
        r == f64_bits_round_u32(bits),
{
    let exp_bits = (bits >> 52u64) & 0x7ffu64;
    assert(exp_bits <= 0x7ff) by (bit_vector)
        requires
            exp_bits == (bits >> 52u64) & 0x7ffu64;
    let exp = exp_bits as i64;
    let frac = (bits & 0xf_ffff_ffff_ffffu64) as u128;
    let mant: u128 = if exp == 0 { frac } else { frac | 0x10_0000_0000_0000u128 };
    let shift: i64 = if exp == 0 { 1074 } else { 1075 - exp };
    if exp == 0x7ff {
        if frac != 0 || bits >> 63u64 == 1 { 0 } else { u32::MAX }
    } else if bits >> 63u64 == 1 {
        0
    } else if shift <= 0 || shift > 120 {
        if shift <= 0 && mant != 0 { u32::MAX } else { 0 }
    } else {
        assert(mant < 0x20_0000_0000_0000u128) by (bit_vector)
            requires
                mant == frac | 0x10_0000_0000_0000u128 || mant == frac,
                frac == (bits & 0xf_ffff_ffff_ffffu64) as u128;
        let half = 1u128 << ((shift - 1) as u128);
        assert(half <= 0x0080_0000_0000_0000_0000_0000_0000_0000u128) by (bit_vector)
            requires
                half == 1u128 << ((shift - 1) as u128),
                1 <= shift <= 120;
        let rounded = (mant + half) >> (shift as u128);
        if rounded > u32::MAX as u128 { u32::MAX } else { rounded as u32 }
    }
}

fn parse_desc(data: &[u8], state: &mut CafState)  -> (r: Result<()>)
    ensures
        match r {
            Ok(_) => caf_desc(data@, *old(state)) == Ok::<CafState, Failure>(*final(state)),
            Err(e) => caf_desc(data@, *old(state)) == Err::<CafState, Failure>(failure(e)),
        },
{
    if data.len() < 32 {
        return Err(unexpected_eof(32, data.len()));
    }
    let bits = match read_u64_be(data, 0) {
        Ok(v) => v,
        Err(e) => return Err(e),
    };
    let codec: &'static str = if tag_at(data, 8, &[0x61u8, 0x61, 0x63, 0x20]) {
        "aac"
    } else if tag_at(data, 8, &[0x6fu8, 0x70, 0x75, 0x73]) {
        "opus"
    } else if tag_at(data, 8, &[0x6cu8, 0x70, 0x63, 0x6d]) {
        let _flags = match read_u32_be(data, 12) {
        Ok(v) => v,
        Err(e) => return Err(e),
    };
        "pcm_s16be"
    } else {
        let shown = lossy_text(&data[8..12]);
        return Err(RmpegError::InvalidData(join3("unsupported CAF codec ", shown.as_str(), "")));
    };
    let bytes_per_packet = match read_u32_be(data, 16) {
        Ok(v) => v,
        Err(e) => return Err(e),
    };
    let frames_per_packet = match read_u32_be(data, 20) {
        Ok(v) => v,
        Err(e) => return Err(e),
    };
    let channels = match read_u32_be(data, 24) {
        Ok(v) => v,
        Err(e) => return Err(e),
    };
    if channels > u16::MAX as u32 {
        return Err(invalid_data("CAF channel count is too large"));
    }
    let bits_per_sample = match read_u32_be(data, 28) {
        Ok(v) => v,
        Err(e) => return Err(e),
    };
    if bits_per_sample > u16::MAX as u32 {
        return Err(invalid_data("CAF bits per sample is too large"));
    }
    state.sample_rate = Some(f64_round_u32(bits));
    state.codec_name = Some(codec);
    state.bytes_per_packet = Some(bytes_per_packet);
    state.frames_per_packet = Some(frames_per_packet);
    state.channels = Some(channels as u16);
    state.bits_per_sample = Some(bits_per_sample as u16);
    Ok(())
}

fn parse_pakt(data: &[u8], state: &mut CafState) -> (r: Result<()>)
    ensures
        match r {
            Ok(_) => caf_pakt(data@, *old(state)) == Ok::<CafState, Failure>(*final(state)),
            Err(e) => caf_pakt(data@, *old(state)) == Err::<CafState, Failure>(failure(e)),
        },
{
    if data.len() < 24 {
        return Err(unexpected_eof(24, data.len()));
    }
    let packet_frames = match read_u64_be(data, 8) {
        Ok(v) => v,
        Err(e) => return Err(e),
    };
    let priming = match read_u32_be(data, 16) {
        Ok(v) => v,
        Err(e) => return Err(e),
    };
    let remainder = match read_u32_be(data, 20) {
        Ok(v) => v,
        Err(e) => return Err(e),
    };
    state.packet_frames = Some(packet_frames);
    state.priming_frames = Some(priming);
    state.remainder_frames = Some(remainder);
    Ok(())
}

fn caf_duration(state: &CafState, sample_rate: u32) -> (d: Seconds)
    ensures
        d == caf_duration_spec(*state, sample_rate as int),
{
    if let Some(packet_frames) = state.packet_frames {
        let priming = match state.priming_frames { Some(p) => p as u64, None => 0 };
        let remainder = match state.remainder_frames { Some(p) => p as u64, None => 0 };
        let frames = packet_frames.saturating_add(priming).saturating_add(remainder);
        return Seconds { num: frames as u128, den: sample_rate as u128 };
    }
    match (state.data_size, state.bytes_per_packet, state.frames_per_packet) {
        (Some(data_size), Some(bytes_per_packet), Some(frames_per_packet)) => {
            if bytes_per_packet != 0 {
                Seconds {
                    num: wide_mul(data_size, frames_per_packet as u64),
                    den: wide_mul(bytes_per_packet as u64, sample_rate as u64),
                }
            } else {
                zero_seconds()
            }
        },
        _ => zero_seconds(),
    }
}

fn read_i64_be(bytes: &[u8], pos: usize) -> (r: Result<i64>)
    requires
        pos <= usize::MAX - 8,
    ensures
        match r {
            Ok(v) => pos + 8 <= bytes@.len() && (v >= 0 <==> u64_be(bytes@, pos as int) < 0x8000_0000_0000_0000)
                && (v >= 0 ==> v == u64_be(bytes@, pos as int)),
            Err(e) => pos + 8 > bytes@.len() && failure(e) == eof(pos + 8, bytes@.len() as int),
        },
{
    let v = match read_u64_be(bytes, pos) {
        Ok(v) => v,
        Err(e) => return Err(e),
    };
    if v < 0x8000_0000_0000_0000 { Ok(v as i64) } else { Ok(-1) }
}

fn read_u32_be(bytes: &[u8], offset: usize) -> (r: Result<u32>)
    requires
        offset <= usize::MAX - 4,
    ensures
        read_outcome32(r) == read_result(bytes@, offset as int, 4, u32_be(bytes@, offset as int)),
{
    if offset + 4 > bytes.len() {
        return Err(unexpected_eof(offset + 4, bytes.len()));
    }
    Ok(be32(bytes, offset))
}

fn read_u64_be(bytes: &[u8], offset: usize) -> (r: Result<u64>)
    requires
        offset <= usize::MAX - 8,
    ensures
        read_outcome64(r) == read_result(bytes@, offset as int, 8, u64_be(bytes@, offset as int)),
{
    if offset + 8 > bytes.len() {
        return Err(unexpected_eof(offset + 8, bytes.len()));
    }
    Ok(be64(bytes, offset))
}

} // verus!
