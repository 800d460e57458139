use vstd::prelude::*;
use crate::bytes::{be16, be32, has_tag, read_outcome16, read_outcome32, read_result, tag_at, u16_be, u32_be};
use crate::error::{eof, failure, invalid_data, unexpected_eof, unsupported, Failure, Result, RmpegError};
use crate::metadata::{audio_stream, probe_outcome, secs, video_stream, zero_secs, zero_seconds, Probe, ProbeDocument, Seconds, StreamMetadata};
use crate::error::with_number;

verus! {

/// What the chunks of an IFF file have declared so far.
pub struct IffState {
    pub width: Option<u32>,
    pub height: Option<u32>,
    pub sample_rate: Option<u32>,
    pub sample_count: Option<u32>,
    pub channels: Option<u16>,
    pub compression: Option<u8>,
}

/// The state before any chunk has been read.
pub open spec fn iff_empty() -> IffState {
    IffState { width: None, height: None, sample_rate: None, sample_count: None, channels: None, compression: None }
}

/// Whether `b` is an IFF "FORM" of a type this probe knows.
pub open spec fn iff_magic(b: Seq<u8>) -> bool {
    &&& b.len() >= 12
    &&& has_tag(b, 0, seq![0x46u8, 0x4f, 0x52, 0x4d])
    &&& has_tag(b, 8, seq![0x49u8, 0x4c, 0x42, 0x4d]) || has_tag(b, 8, seq![0x50u8, 0x42, 0x4d, 0x20]) || has_tag(b, 8, seq![0x38u8, 0x53, 0x56, 0x58])
        || has_tag(b, 8, seq![0x41u8, 0x4e, 0x49, 0x4d])
}

/// The state after a bitmap header with payload `d`.
pub open spec fn iff_bmhd(d: Seq<u8>, st: IffState) -> core::result::Result<IffState, Failure> {
    if d.len() < 4 {
        Err(eof(4, d.len() as int))
    } else {
        Ok(IffState { width: Some(u16_be(d, 0) as u32), height: Some(u16_be(d, 2) as u32), ..st })
    }
}

/// The state after an 8SVX voice header with payload `d`.
pub open spec fn iff_vhdr(d: Seq<u8>, st: IffState) -> core::result::Result<IffState, Failure> {
    let count = u32_be(d, 0) + u32_be(d, 4);
    if d.len() < 16 {
        Err(eof(16, d.len() as int))
    } else {
        Ok(IffState {
            sample_count: Some(if count > u32::MAX { u32::MAX } else { count as u32 }),
            sample_rate: Some(u16_be(d, 12) as u32),
            compression: Some(d[15]),
            ..st
        })
    }
}

/// The state after a channel chunk with payload `d`: stereo when it says 6.
pub open spec fn iff_chan(d: Seq<u8>, st: IffState) -> core::result::Result<IffState, Failure> {
    if d.len() < 4 {
        Err(eof(4, d.len() as int))
    } else {
        Ok(IffState { channels: Some(if u32_be(d, 0) == 6 { 2u16 } else { 1u16 }), ..st })
    }
}

/// The state after walking the top-level chunks from `pos` (each padded to an even size).
pub open spec fn iff_walk(b: Seq<u8>, pos: int, st: IffState) -> core::result::Result<IffState, Failure>
    decreases b.len() - pos,
{
    let size = u32_be(b, pos + 4);
    let end = pos + 8 + size;
    if pos < 0 || pos + 8 > b.len() {
        Ok(st)
    } else if end > usize::MAX {
        Err(Failure::InvalidData)
    } else if end > b.len() {
        Ok(st)
    } else {
        let d = b.subrange(pos + 8, end);
        let next = if has_tag(b, pos, seq![0x42u8, 0x4d, 0x48, 0x44]) {
            iff_bmhd(d, st)
        } else if has_tag(b, pos, seq![0x56u8, 0x48, 0x44, 0x52]) {
            iff_vhdr(d, st)
        } else if has_tag(b, pos, seq![0x43u8, 0x48, 0x41, 0x4e]) {
            iff_chan(d, st)
        } else {
            Ok(st)
        };
        match next {
            Err(e) => Err(e),
            Ok(st2) => if end + size % 2 > b.len() { Ok(st2) } else { iff_walk(b, end + size % 2, st2) },
        }
    }
}

/// The state after walking the chunks of a nested ILBM form between `pos` and `limit`.
pub open spec fn iff_nested(b: Seq<u8>, pos: int, limit: int, st: IffState) -> core::result::Result<IffState, Failure>
    decreases limit - pos,
{
    let size = u32_be(b, pos + 4);
    let end = pos + 8 + size;
    if pos < 0 || limit > b.len() || pos + 8 > limit {
        Ok(st)
    } else if end > usize::MAX {
        Err(Failure::InvalidData)
    } else if end > limit {
        Ok(st)
    } else {
        let next = if has_tag(b, pos, seq![0x42u8, 0x4d, 0x48, 0x44]) {
            iff_bmhd(b.subrange(pos + 8, end), st)
        } else if has_tag(b, pos, seq![0x53u8, 0x58, 0x48, 0x44]) && size >= 20 {
            Ok(IffState { sample_rate: Some(u16_be(b, pos + 26) as u32), ..st })
        } else {
            Ok(st)
        };
        match next {
            Err(e) => Err(e),
            Ok(st2) => if end + size % 2 > limit { Ok(st2) } else { iff_nested(b, end + size % 2, limit, st2) },
        }
    }
}

/// `a`, or `b` when `a` is `None`.
pub open spec fn or_opt(a: Option<u32>, b: Option<u32>) -> Option<u32> {
    if a is Some { a } else { b }
}

/// Width, height and sample rate found walking an ANIM file's chunks from `pos`.
pub open spec fn iff_anim(b: Seq<u8>, pos: int, acc: IffState) -> core::result::Result<IffState, Failure>
    decreases b.len() - pos,
{
    let size = u32_be(b, pos + 4);
    let start = pos + 8;
    let end = start + size;
    if pos < 0 || pos + 8 > b.len() {
        Ok(acc)
    } else if end > usize::MAX {
        Err(Failure::InvalidData)
    } else if end > b.len() {
        Ok(acc)
    } else {
        let next = if has_tag(b, pos, seq![0x46u8, 0x4f, 0x52, 0x4d]) && has_tag(b, start, seq![0x49u8, 0x4c, 0x42, 0x4d]) {
            match iff_nested(b, start + 4, end, iff_empty()) {
                Err(e) => Err(e),
                Ok(n) => Ok(IffState {
                    width: or_opt(n.width, acc.width),
                    height: or_opt(n.height, acc.height),
                    sample_rate: or_opt(n.sample_rate, acc.sample_rate),
                    ..acc
                }),
            }
        } else if has_tag(b, pos, seq![0x53u8, 0x58, 0x48, 0x44]) && size >= 20 {
            Ok(IffState { sample_rate: Some(u16_be(b, start + 18) as u32), ..acc })
        } else {
            Ok(acc)
        };
        match next {
            Err(e) => Err(e),
            Ok(a2) => if end + size % 2 > b.len() { Ok(a2) } else { iff_anim(b, end + size % 2, a2) },
        }
    }
}

/// The codec of 8SVX audio with the given compression byte.
pub open spec fn svx_codec(c: Option<u8>) -> Option<&'static str> {
    match c {
        Some(v) => if v == 1 { Some("8svx_fib") } else if v == 0 { Some("pcm_s8") } else { None },
        None => Some("pcm_s8"),
    }
}

/// The document an IFF form describes once its chunks are read.
pub open spec fn iff_document(b: Seq<u8>, st: IffState) -> core::result::Result<Probe, Failure> {
    if has_tag(b, 8, seq![0x49u8, 0x4c, 0x42, 0x4d]) || has_tag(b, 8, seq![0x50u8, 0x42, 0x4d, 0x20]) {
        match (st.width, st.height) {
            (Some(w), Some(h)) => if w == 0 || h == 0 {
                Err(Failure::InvalidData)
            } else {
                Ok(Probe { format: "iff", streams: seq![video_stream(0, "iff_ilbm", w as int, h as int, Some(zero_secs()), None)] })
            },
            _ => Err(Failure::InvalidData),
        }
    } else if has_tag(b, 8, seq![0x38u8, 0x53, 0x56, 0x58]) {
        match st.sample_rate {
            Some(sr) => if sr == 0 || svx_codec(st.compression) is None {
                Err(Failure::InvalidData)
            } else {
                let codec = svx_codec(st.compression)->0;
                let count = match st.sample_count { Some(c) => c as int, None => 0 };
                Ok(Probe { format: "iff", streams: seq![audio_stream(0, codec, sr as int,
                    match st.channels { Some(c) => c as int, None => 1 },
                    if st.compression == Some(1u8) { 4 } else { 8 }, secs(count, sr as int))] })
            },
            None => Err(Failure::InvalidData),
        }
    } else {
        match iff_anim(b, 12, iff_empty()) {
            Err(e) => Err(e),
            Ok(a) => match (a.width, a.height, a.sample_rate) {
                (Some(w), Some(h), Some(sr)) => Ok(Probe { format: "iff", streams: seq![
                    video_stream(0, "iff_ilbm", w as int, h as int, Some(zero_secs()), None),
                    audio_stream(1, "pcm_s8_planar", sr as int, 2, 8, zero_secs())] }),
                _ => Err(Failure::InvalidData),
            },
        }
    }
}

/// The probe of an IFF file (ILBM or PBM images, 8SVX audio, ANIM animations).
pub open spec fn spec_parse_iff(b: Seq<u8>) -> core::result::Result<Probe, Failure> {
    if !iff_magic(b) {
        Err(Failure::InvalidData)
    } else {
        match iff_walk(b, 12, iff_empty()) {
            Err(e) => Err(e),
            Ok(st) => iff_document(b, st),
        }
    }
}

/// Probes an IFF file.
pub fn parse_iff(bytes: &[u8]) -> (r: Result<ProbeDocument>)
    ensures
        probe_outcome(r) == spec_parse_iff(bytes@),
{
    if !looks_like_iff(bytes) {
        return Err(invalid_data("missing IFF FORM header"));
    }
    let mut state = IffState { width: None, height: None, sample_rate: None, sample_count: None, channels: None, compression: None };
    let mut pos: usize = 12;
    while pos <= bytes.len() && bytes.len() - pos >= 8
        invariant_except_break
            iff_walk(bytes@, 12, iff_empty()) == iff_walk(bytes@, pos as int, state),
        invariant
            12 <= pos,
            iff_magic(bytes@),
        ensures
            iff_walk(bytes@, 12, iff_empty()) == Ok::<IffState, Failure>(state),
        decreases bytes.len() - pos,
    {
        let size = match read_u32_be(bytes, pos + 4) {
        Ok(v) => v,
        Err(e) => return Err(e),
    } as usize;
        let data_start = pos + 8;
        if size > usize::MAX - data_start {
            return Err(invalid_data("IFF chunk size overflow"));
        }
        let data_end = data_start + size;
        if data_end > bytes.len() {
            break;
        }
        let data = &bytes[data_start..data_end];
        let ghost st0 = state;
        if tag_at(bytes, pos, &[0x42u8, 0x4d, 0x48, 0x44]) {
            match parse_bmhd(data, &mut state) {
                Ok(()) => {},
                Err(e) => {
                    assert(iff_walk(bytes@, pos as int, st0) == Err::<IffState, Failure>(failure(e)));
                    return Err(e);
                },
            }
        } else if tag_at(bytes, pos, &[0x56u8, 0x48, 0x44, 0x52]) {
            match parse_vhdr(data, &mut state) {
                Ok(()) => {},
                Err(e) => {
                    assert(iff_walk(bytes@, pos as int, st0) == Err::<IffState, Failure>(failure(e)));
                    return Err(e);
                },
            }
        } else if tag_at(bytes, pos, &[0x43u8, 0x48, 0x41, 0x4e]) {
            match parse_chan(data, &mut state) {
                Ok(()) => {},
                Err(e) => {
                    assert(iff_walk(bytes@, pos as int, st0) == Err::<IffState, Failure>(failure(e)));
                    return Err(e);
                },
            }
        }
        if size % 2 == 1 && data_end == bytes.len() {
            break;
        }
        pos = data_end + size % 2;
    }
    if tag_at(bytes, 8, &[0x49u8, 0x4c, 0x42, 0x4d]) || tag_at(bytes, 8, &[0x50u8, 0x42, 0x4d, 0x20]) {
        image_document(state)
    } else if tag_at(bytes, 8, &[0x38u8, 0x53, 0x56, 0x58]) {
        audio_document(state)
    } else {
        anim_document(bytes)
    }
}

/// Whether `bytes` is an IFF form of a known type.
pub fn looks_like_iff(bytes: &[u8]) -> (r: bool)
    ensures
        r == iff_magic(bytes@),
{
    bytes.len() >= 12 && tag_at(bytes, 0, &[0x46u8, 0x4f, 0x52, 0x4d]) && (tag_at(bytes, 8, &[0x49u8, 0x4c, 0x42, 0x4d])
        || tag_at(bytes, 8, &[0x50u8, 0x42, 0x4d, 0x20]) || tag_at(bytes, 8, &[0x38u8, 0x53, 0x56, 0x58]) || tag_at(bytes, 8, &[0x41u8, 0x4e, 0x49, 0x4d]))
}

fn parse_bmhd(data: &[u8], state: &mut IffState) -> (r: Result<()>)
    ensures
        match r {
            Ok(_) => iff_bmhd(data@, *old(state)) == Ok::<IffState, Failure>(*final(state)),
            Err(e) => iff_bmhd(data@, *old(state)) == Err::<IffState, Failure>(failure(e)),
        },
{
    if data.len() < 4 {
        return Err(unexpected_eof(4, data.len()));
    }
    let width = match read_u16_be(data, 0) {
        Ok(v) => v,
        Err(e) => return Err(e),
    } as u32;
    let height = match read_u16_be(data, 2) {
        Ok(v) => v,
        Err(e) => return Err(e),
    } as u32;
    state.width = Some(width);
    state.height = Some(height);
    Ok(())
}

fn parse_vhdr(data: &[u8], state: &mut IffState) -> (r: Result<()>)
    ensures
        match r {
            Ok(_) => iff_vhdr(data@, *old(state)) == Ok::<IffState, Failure>(*final(state)),
            Err(e) => iff_vhdr(data@, *old(state)) == Err::<IffState, Failure>(failure(e)),
        },
{
    if data.len() < 16 {
        return Err(unexpected_eof(16, data.len()));
    }
    let one_shot = match read_u32_be(data, 0) {
        Ok(v) => v,
        Err(e) => return Err(e),
    };
    let repeat = match read_u32_be(data, 4) {
        Ok(v) => v,
        Err(e) => return Err(e),
    };
    let rate = match read_u16_be(data, 12) {
        Ok(v) => v,
        Err(e) => return Err(e),
    } as u32;
    state.sample_count = Some(one_shot.saturating_add(repeat));
    state.sample_rate = Some(rate);
    state.compression = Some(data[15]);
    Ok(())
}

fn parse_chan(data: &[u8], state: &mut IffState) -> (r: Result<()>)
    ensures
        match r {
            Ok(_) => iff_chan(data@, *old(state)) == Ok::<IffState, Failure>(*final(state)),
            Err(e) => iff_chan(data@, *old(state)) == Err::<IffState, Failure>(failure(e)),
        },
{
    if data.len() < 4 {
        return Err(unexpected_eof(4, data.len()));
    }
    let layout = match read_u32_be(data, 0) {
        Ok(v) => v,
        Err(e) => return Err(e),
    };
    state.channels = Some(if layout == 6 { 2 } else { 1 });
    Ok(())
}

fn image_document(state: IffState) -> (r: Result<ProbeDocument>)
    ensures
        match (state.width, state.height) {
            (Some(w), Some(h)) => if w == 0 || h == 0 {
                r is Err && failure(r->Err_0) == Failure::InvalidData
            } else {
                r matches Ok(d) && d@ == (Probe { format: "iff", streams: seq![video_stream(0, "iff_ilbm",
                    w as int, h as int, Some(zero_secs()), None)] })
            },
            _ => r is Err && failure(r->Err_0) == Failure::InvalidData,
        },
{
    let width = match state.width {
        Some(w) => if w != 0 { w } else { return Err(invalid_data("IFF image width missing")) },
        None => return Err(invalid_data("IFF image width missing")),
    };
    let height = match state.height {
        Some(h) => if h != 0 { h } else { return Err(invalid_data("IFF image height missing")) },
        None => return Err(invalid_data("IFF image height missing")),
    };
    Ok(ProbeDocument::single("iff", StreamMetadata::video(0, "iff_ilbm", width, height, Some(zero_seconds()), None)))
}

fn audio_document(state: IffState) -> (r: Result<ProbeDocument>)
    ensures
        match state.sample_rate {
            Some(sr) => if sr == 0 || svx_codec(state.compression) is None {
                r is Err && failure(r->Err_0) == Failure::InvalidData
            } else {
                r matches Ok(d) && d@ == (Probe { format: "iff", streams: seq![audio_stream(0,
                    svx_codec(state.compression)->0, sr as int,
                    match state.channels { Some(c) => c as int, None => 1 },
                    if state.compression == Some(1u8) { 4 } else { 8 },
                    secs(match state.sample_count { Some(c) => c as int, None => 0 }, sr as int))] })
            },
            None => r is Err && failure(r->Err_0) == Failure::InvalidData,
        },
{
    let sample_rate = match state.sample_rate {
        Some(sr) => if sr != 0 { sr } else { return Err(invalid_data("IFF sample rate missing")) },
        None => return Err(invalid_data("IFF sample rate missing")),
    };
    let sample_count = match state.sample_count { Some(c) => c, None => 0 };
    let codec = match state.compression {
        Some(1) => "8svx_fib",
        Some(0) | None => "pcm_s8",
        Some(other) => {
            return Err(RmpegError::InvalidData(with_number("unsupported 8SVX compression ", other as u64)));
        },
    };
    let channels = match state.channels { Some(c) => c, None => 1 };
    let bits: u16 = if state.compression == Some(1u8) { 4 } else { 8 };
    let duration = Seconds { num: sample_count as u128, den: sample_rate as u128 };
    Ok(ProbeDocument::single("iff", StreamMetadata::audio(0, codec, sample_rate, channels, bits, duration)))
}

fn anim_document(bytes: &[u8]) -> (r: Result<ProbeDocument>)
    ensures
        match iff_anim(bytes@, 12, iff_empty()) {
            Err(e) => r is Err && failure(r->Err_0) == e,
            Ok(a) => match (a.width, a.height, a.sample_rate) {
                (Some(w), Some(h), Some(sr)) => r matches Ok(d) && d@ == (Probe { format: "iff", streams: seq![
                    video_stream(0, "iff_ilbm", w as int, h as int, Some(zero_secs()), None),
                    audio_stream(1, "pcm_s8_planar", sr as int, 2, 8, zero_secs())] }),
                _ => r is Err && failure(r->Err_0) == Failure::InvalidData,
            },
        },
{
    let mut acc = IffState { width: None, height: None, sample_rate: None, sample_count: None, channels: None, compression: None };
    let mut pos: usize = 12;
    while pos <= bytes.len() && bytes.len() - pos >= 8
        invariant_except_break
            iff_anim(bytes@, 12, iff_empty()) == iff_anim(bytes@, pos as int, acc),
        invariant
            12 <= pos,
        ensures
            iff_anim(bytes@, 12, iff_empty()) == Ok::<IffState, Failure>(acc),
        decreases bytes.len() - pos,
    {
        let size = match read_u32_be(bytes, pos + 4) {
        Ok(v) => v,
        Err(e) => return Err(e),
    } as usize;
        let data_start = pos + 8;
        if size > usize::MAX - data_start {
            return Err(invalid_data("IFF chunk size overflow"));
        }
        let data_end = data_start + size;
        if data_end > bytes.len() {
            break;
        }
        let ghost a0 = acc;
        if tag_at(bytes, pos, &[0x46u8, 0x4f, 0x52, 0x4d]) && tag_at(bytes, data_start, &[0x49u8, 0x4c, 0x42, 0x4d]) {
            let mut nested = IffState { width: None, height: None, sample_rate: None, sample_count: None, channels: None, compression: None };
            match parse_nested_anim_form(bytes, data_start + 4, data_end, &mut nested) {
                Ok(()) => {},
                Err(e) => {
                    assert(iff_anim(bytes@, pos as int, a0) == Err::<IffState, Failure>(failure(e)));
                    return Err(e);
                },
            }
            if nested.width.is_some() {
                acc.width = nested.width;
            }
            if nested.height.is_some() {
                acc.height = nested.height;
            }
            if nested.sample_rate.is_some() {
                acc.sample_rate = nested.sample_rate;
            }
        } else if tag_at(bytes, pos, &[0x53u8, 0x58, 0x48, 0x44]) && size >= 20 {
            let rate = match read_u16_be(bytes, data_start + 18) {
        Ok(v) => v,
        Err(e) => return Err(e),
    } as u32;
            acc.sample_rate = Some(rate);
        }
        if size % 2 == 1 && data_end == bytes.len() {
            break;
        }
        pos = data_end + size % 2;
    }
    let width = match acc.width { Some(w) => w, None => return Err(invalid_data("IFF ANIM width missing")) };
    let height = match acc.height { Some(h) => h, None => return Err(invalid_data("IFF ANIM height missing")) };
    let sample_rate = match acc.sample_rate {
        Some(s) => s,
        None => return Err(invalid_data("IFF ANIM sample rate missing")),
    };
    Ok(ProbeDocument::pair(
        "iff",
        StreamMetadata::video(0, "iff_ilbm", width, height, Some(zero_seconds()), None),
        StreamMetadata::audio(1, "pcm_s8_planar", sample_rate, 2, 8, zero_seconds()),
    ))
}

fn parse_nested_anim_form(bytes: &[u8], start: usize, end: usize, state: &mut IffState) -> (r: Result<()>)
    requires
        end <= bytes@.len(),
    ensures
        match r {
            Ok(_) => iff_nested(bytes@, start as int, end as int, *old(state)) == Ok::<IffState, Failure>(*final(state)),
            Err(e) => iff_nested(bytes@, start as int, end as int, *old(state)) == Err::<IffState, Failure>(failure(e)),
        },
{
    let mut pos = start;
    while pos <= end && end - pos >= 8
        invariant_except_break
            iff_nested(bytes@, start as int, end as int, *old(state)) == iff_nested(bytes@, pos as int, end as int, *state),
        invariant
            end <= bytes@.len(),
            start <= pos,
        ensures
            iff_nested(bytes@, start as int, end as int, *old(state)) == Ok::<IffState, Failure>(*state),
        decreases end - pos,
    {
        let size = match read_u32_be(bytes, pos + 4) {
        Ok(v) => v,
        Err(e) => return Err(e),
    } as usize;
        let data_start = pos + 8;
        if size > usize::MAX - data_start {
            return Err(invalid_data("IFF chunk size overflow"));
        }
        let data_end = data_start + size;
        if data_end > end {
            break;
        }
        let ghost s0 = *state;
        if tag_at(bytes, pos, &[0x42u8, 0x4d, 0x48, 0x44]) {
            match parse_bmhd(&bytes[data_start..data_end], state) {
                Ok(()) => {},
                Err(e) => {
                    assert(iff_nested(bytes@, pos as int, end as int, s0) == Err::<IffState, Failure>(failure(e)));
                    return Err(e);
                },
            }
        } else if tag_at(bytes, pos, &[0x53u8, 0x58, 0x48, 0x44]) && size >= 20 {
            let rate = match read_u16_be(bytes, data_start + 18) {
        Ok(v) => v,
        Err(e) => return Err(e),
    } as u32;
            state.sample_rate = Some(rate);
        }
        if size % 2 == 1 && data_end == end {
            break;
        }
        pos = data_end + size % 2;
    }
    Ok(())
}

fn read_u16_be(bytes: &[u8], offset: usize) -> (r: Result<u16>)
    requires
        offset <= usize::MAX - 2,
    ensures
        read_outcome16(r) == read_result(bytes@, offset as int, 2, u16_be(bytes@, offset as int)),
{
    if offset + 2 > bytes.len() {
        return Err(unexpected_eof(offset + 2, bytes.len()));
    }
    Ok(be16(bytes, offset))
}

fn read_u32_be(bytes: &[u8], offset: usize) -> (r: Result<u32>)
    requires
        offset <= usize::MAX - 4,
    ensures
        read_outcome32(r) == read_result(bytes@, offset as int, 4, u32_be(bytes@, offset as int)),
{
    if offset + 4 > bytes.len() {
        return Err(unexpected_eof(offset + 4, bytes.len()));
    }
    Ok(be32(bytes, offset))
}

} // verus!
