use vstd::prelude::*;
use crate::bytes::{sat, sat_add, has_tag, tag_at};
use crate::error::{eof, invalid_data, unexpected_eof, unsupported, Failure, Result, RmpegError};
use crate::metadata::{audio_stream, probe_outcome, secs, Probe, ProbeDocument, Seconds, StreamMetadata};

use crate::error::with_number;

verus! {

/// The size in bytes (header byte included) of an AMR-NB frame of type `t`, for the
/// speech and SID types.
pub open spec fn amr_frame_size(t: int) -> Option<int> {
    if t == 0 { Some(13) } else if t == 1 { Some(14) } else if t == 2 { Some(16) } else if t == 3 { Some(18) }
    else if t == 4 { Some(20) } else if t == 5 { Some(21) } else if t == 6 { Some(27) } else if t == 7 { Some(32) }
    else if t == 8 { Some(6) } else { None }
}

/// The bit rate of frame type `t` (bits per second).
pub open spec fn amr_bit_rate(t: int) -> int {
    if t == 0 { 5200 } else if t == 1 { 5600 } else if t == 2 { 6400 } else if t == 3 { 7200 }
    else if t == 4 || t == 5 { 8000 } else if t == 6 { 10400 } else if t == 7 { 12400 } else { 2400 }
}

/// A common multiple of all the bit rates: durations are counted in 1/812448000 s.
pub open spec fn amr_time_base() -> int {
    812448000
}

/// The frames from `pos` on, with `ticks` time-base units of audio and `any` telling
/// whether a frame was seen before `pos`.
pub open spec fn amr_walk(b: Seq<u8>, pos: int, ticks: int, any: bool) -> core::result::Result<(int, bool), Failure>
    decreases b.len() - pos,
{
    if pos < 0 || pos >= b.len() {
        Ok((ticks, any))
    } else {
        let t = ((b[pos] >> 3u8) & 15u8) as int;
        match amr_frame_size(t) {
            None => Err(Failure::InvalidData),
            Some(size) => if pos + size > b.len() {
                Err(eof(sat(pos + size), b.len() as int))
            } else {
                amr_walk(b, pos + size, ticks + size * 8 * (amr_time_base() / amr_bit_rate(t)), true)
            },
        }
    }
}

/// The probe of a raw AMR-NB stream: the magic, then frames whose sizes and bit rates
/// give the duration.
pub open spec fn spec_parse_amr_nb(b: Seq<u8>) -> core::result::Result<Probe, Failure> {
    if !has_tag(b, 0, seq![0x23u8, 0x21, 0x41, 0x4d, 0x52, 0x0a]) {
        Err(Failure::InvalidData)
    } else {
        match amr_walk(b, 6, 0, false) {
            Err(e) => Err(e),
            Ok((ticks, any)) => if !any {
                Err(Failure::InvalidData)
            } else {
                Ok(Probe { format: "amr", streams: seq![audio_stream(0, "amr_nb", 8000, 1, 0, secs(ticks, amr_time_base()))] })
            },
        }
    }
}

/// Probes a raw AMR-NB stream.
pub fn parse_amr_nb(bytes: &[u8]) -> (r: Result<ProbeDocument>)
    ensures
        probe_outcome(r) == spec_parse_amr_nb(bytes@),
{
    if !tag_at(bytes, 0, &[0x23u8, 0x21, 0x41, 0x4d, 0x52, 0x0a]) {
        return Err(invalid_data("missing AMR-NB magic header"));
    }
    let len = bytes.len();
    let mut pos: usize = 6;
    let mut ticks: u128 = 0;
    let mut any = false;
    while pos < len
        invariant
            len == bytes@.len(),
            6 <= pos <= len,
            has_tag(bytes@, 0, seq![0x23u8, 0x21, 0x41, 0x4d, 0x52, 0x0a]),
            ticks <= pos * 400_000_000,
            amr_walk(bytes@, 6, 0, false) == amr_walk(bytes@, pos as int, ticks as int, any),
        decreases len - pos,
    {
        let t = (bytes[pos] >> 3) & 15;
        let (size, per_bit): (usize, u128) = if t == 0 { (13, 156240) } else if t == 1 { (14, 145080) } else if t == 2 { (16, 126945) }
            else if t == 3 { (18, 112840) } else if t == 4 || t == 5 { (if t == 4 { 20 } else { 21 }, 101556) } else if t == 6 { (27, 78120) }
            else if t == 7 { (32, 65520) } else if t == 8 { (6, 338520) } else {
            return Err(RmpegError::InvalidData(with_number("unsupported AMR-NB frame type ", t as u64)));
        };
        if size > len - pos {
            return Err(unexpected_eof(sat_add(pos, size), len));
        }
        assert(size <= 32 && per_bit <= 338520);
        assert((size as u128) * 8 * per_bit <= 32 * 8 * 338520) by (nonlinear_arith)
            requires
                size <= 32,
                per_bit <= 338520,
        ;
        ticks = ticks + (size as u128) * 8 * per_bit;
        any = true;
        pos = pos + size;
    }
    if !any {
        return Err(invalid_data("AMR-NB stream has no frames"));
    }
    Ok(ProbeDocument::single("amr", StreamMetadata::audio(0, "amr_nb", 8000, 1, 0, Seconds { num: ticks, den: 812448000 })))
}

} // verus!
