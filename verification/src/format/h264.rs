use vstd::prelude::*;
use crate::error::{invalid_data, outcome, Failure, Result, RmpegError};
use crate::metadata::{probe_outcome, video_stream, zero_secs, zero_seconds, Probe, ProbeDocument, StreamMetadata};
use crate::bits::BitReader;
use crate::format::nal::{lemma_next_nal_advances, rbsp_from_ebsp, rd_bits, read_bits, read_bool, read_se, read_ue, spec_next_nal, spec_rbsp, spec_se, spec_start_code, spec_ue, then_bits, then_se, then_ue, find_start_code, AnnexBNalUnits};
use crate::error::with_number;

verus! {

/// The luma size a sequence parameter set gives, after cropping.
#[derive(Debug, Clone, Copy, PartialEq, Eq)]
pub struct Dimensions {
    pub width: u32,
    pub height: u32,
}

/// The crop offsets of a sequence parameter set, in crop units.
#[derive(Debug, Clone, Copy, PartialEq, Eq)]
pub struct Cropping {
    pub left: u32,
    pub right: u32,
    pub top: u32,
    pub bottom: u32,
}

/// Whether `profile_idc` is a profile whose SPS carries chroma format and scaling fields.
pub open spec fn high_profile(p: int) -> bool {
    p == 44 || p == 83 || p == 86 || p == 100 || p == 110 || p == 118 || p == 122 || p == 128 || p == 134
        || p == 135 || p == 138 || p == 139 || p == 244
}

/// The remainder of `x` by 256 with the sign of `x`, as Rust's `%` gives it.
pub open spec fn rem256(x: int) -> int {
    if x >= 0 { x % 256 } else { -((-x) % 256) }
}

/// The position after a scaling list with `n` entries left, from the last and next
/// scale values.
pub open spec fn scaling_list(d: Seq<u8>, p: int, n: nat, last: int, next: int) -> core::result::Result<int, Failure>
    decreases n,
{
    if n == 0 {
        Ok(p)
    } else if next != 0 {
        match spec_se(d, p) {
            Err(e) => Err(e),
            Ok((delta, q)) => {
                let nn = rem256(last + delta + 256);
                scaling_list(d, q, (n - 1) as nat, if nn != 0 { nn } else { last }, nn)
            },
        }
    } else {
        scaling_list(d, p, (n - 1) as nat, last, next)
    }
}

/// The position after the scaling lists `i` to `count - 1`, each behind a present flag.
pub open spec fn scaling_matrices(d: Seq<u8>, p: int, i: nat, count: nat) -> core::result::Result<int, Failure>
    decreases count - i,
{
    if i >= count {
        Ok(p)
    } else {
        match rd_bits(d, p, 1) {
            Err(e) => Err(e),
            Ok((flag, q)) => if flag == 1 {
                match scaling_list(d, q, if i < 6 { 16 } else { 64 }, 8, 8) {
                    Err(e) => Err(e),
                    Ok(r) => scaling_matrices(d, r, i + 1, count),
                }
            } else {
                scaling_matrices(d, q, i + 1, count)
            },
        }
    }
}

/// The start of an SPS: `profile_idc` and the position after the constraint flags,
/// level and SPS id.
#[verifier::opaque]
pub open spec fn sps_head(d: Seq<u8>) -> core::result::Result<(int, int), Failure> {
    match rd_bits(d, 0, 8) {
        Err(e) => Err(e),
        Ok((profile, p)) => match then_ue(d, then_bits(d, then_bits(d, Ok(p), 8), 8)) {
            Err(e) => Err(e),
            Ok(q) => Ok((profile, q)),
        },
    }
}

/// The chroma fields of a high-profile SPS at `p`: `chroma_format_idc`, the separate
/// colour plane flag and the position after the scaling matrices.
#[verifier::opaque]
pub open spec fn sps_chroma(d: Seq<u8>, p: int, profile: int) -> core::result::Result<(int, bool, int), Failure> {
    if !high_profile(profile) {
        Ok((1, false, p))
    } else {
        match spec_ue(d, p) {
            Err(e) => Err(e),
            Ok((cfi, p1)) => if cfi > 3 {
                Err(Failure::InvalidData)
            } else {
                let sep = if cfi == 3 { rd_bits(d, p1, 1) } else { Ok((0, p1)) };
                match sep {
                    Err(e) => Err(e),
                    Ok((s, p2)) => match then_bits(d, then_ue(d, then_ue(d, Ok(p2))), 1) {
                        Err(e) => Err(e),
                        Ok(p3) => match rd_bits(d, p3, 1) {
                            Err(e) => Err(e),
                            Ok((present, p4)) => {
                                let after = if present == 1 { scaling_matrices(d, p4, 0, if cfi == 3 { 12 } else { 8 }) } else { Ok(p4) };
                                match after {
                                    Err(e) => Err(e),
                                    Ok(p5) => Ok((cfi, s == 1, p5)),
                                }
                            },
                        },
                    },
                }
            },
        }
    }
}

/// The position after `n` signed Exp-Golomb codes.
pub open spec fn se_run(d: Seq<u8>, p: int, n: nat) -> core::result::Result<int, Failure>
    decreases n,
{
    if n == 0 { Ok(p) } else { match spec_se(d, p) { Err(e) => Err(e), Ok((_, q)) => se_run(d, q, (n - 1) as nat) } }
}

/// The position after `log2_max_frame_num` and the picture order count fields.
#[verifier::opaque]
pub open spec fn sps_pic_order(d: Seq<u8>, p: int) -> core::result::Result<int, Failure> {
    match then_ue(d, Ok(p)) {
        Err(e) => Err(e),
        Ok(p1) => match spec_ue(d, p1) {
            Err(e) => Err(e),
            Ok((kind, p2)) => if kind == 0 {
                then_ue(d, Ok(p2))
            } else if kind == 1 {
                match then_se(d, then_se(d, then_bits(d, Ok(p2), 1))) {
                    Err(e) => Err(e),
                    Ok(p3) => match spec_ue(d, p3) {
                        Err(e) => Err(e),
                        Ok((cycle, p4)) => se_run(d, p4, cycle as nat),
                    },
                }
            } else {
                Ok(p2)
            },
        },
    }
}

/// The frame size fields of an SPS at `p`: width and height in macroblocks less one,
/// the frame-only flag and the position after the 8x8 inference flag.
#[verifier::opaque]
pub open spec fn sps_size(d: Seq<u8>, p: int) -> core::result::Result<(int, int, bool, int), Failure> {
    match then_bits(d, then_ue(d, Ok(p)), 1) {
        Err(e) => Err(e),
        Ok(p1) => match spec_ue(d, p1) {
            Err(e) => Err(e),
            Ok((w, p2)) => match spec_ue(d, p2) {
                Err(e) => Err(e),
                Ok((h, p3)) => match rd_bits(d, p3, 1) {
                    Err(e) => Err(e),
                    Ok((frame_only, p4)) => match then_bits(d, if frame_only == 1 { Ok(p4) } else { then_bits(d, Ok(p4), 1) }, 1) {
                        Err(e) => Err(e),
                        Ok(p5) => Ok((w, h, frame_only == 1, p5)),
                    },
                },
            },
        },
    }
}

/// The crop offsets of an SPS at `p`, behind their present flag.
#[verifier::opaque]
pub open spec fn sps_crop(d: Seq<u8>, p: int) -> core::result::Result<Cropping, Failure> {
    match rd_bits(d, p, 1) {
        Err(e) => Err(e),
        Ok((crop, p6)) => if crop == 0 {
            Ok(Cropping { left: 0, right: 0, top: 0, bottom: 0 })
        } else {
            match spec_ue(d, p6) {
                Err(e) => Err(e),
                Ok((l, q1)) => match spec_ue(d, q1) {
                    Err(e) => Err(e),
                    Ok((r, q2)) => match spec_ue(d, q2) {
                        Err(e) => Err(e),
                        Ok((t, q3)) => match spec_ue(d, q3) {
                            Err(e) => Err(e),
                            Ok((b, _)) => Ok(Cropping { left: l as u32, right: r as u32, top: t as u32, bottom: b as u32 }),
                        },
                    },
                },
            }
        },
    }
}

/// The horizontal and vertical crop units of a chroma format.
pub open spec fn spec_crop_units(cfi: int, sep: bool, frame_only: bool) -> (int, int) {
    let field = if frame_only { 1int } else { 2int };
    if cfi == 0 || sep {
        (1, field)
    } else if cfi == 1 {
        (2, 2 * field)
    } else if cfi == 2 {
        (2, field)
    } else {
        (1, field)
    }
}

/// The picture size an SPS gives: macroblocks of 16 samples (two fields of them
/// without the frame-only flag), less the crop in crop units; an error when a step
/// leaves `u32` or the size is empty.
#[verifier::opaque]
pub open spec fn spec_dimensions(w1: int, h1: int, frame_only: bool, cfi: int, sep: bool, crop: Cropping)
    -> core::result::Result<Dimensions, Failure>
{
    let width = (w1 + 1) * 16;
    let height = (h1 + 1) * 16 * (if frame_only { 1int } else { 2int });
    let units = spec_crop_units(cfi, sep, frame_only);
    let crop_w = (crop.left + crop.right) * units.0;
    let crop_h = (crop.top + crop.bottom) * units.1;
    if width > u32::MAX || height > u32::MAX || crop.left + crop.right > u32::MAX || crop_w > u32::MAX
        || crop.top + crop.bottom > u32::MAX || crop_h > u32::MAX || width < crop_w || height < crop_h
        || width == crop_w || height == crop_h {
        Err(Failure::InvalidData)
    } else {
        Ok(Dimensions { width: (width - crop_w) as u32, height: (height - crop_h) as u32 })
    }
}

/// The picture size of the SPS whose RBSP is `d`.
#[verifier::opaque]
pub open spec fn spec_sps(d: Seq<u8>) -> core::result::Result<Dimensions, Failure> {
    match sps_head(d) {
        Err(e) => Err(e),
        Ok((profile, p1)) => match sps_chroma(d, p1, profile) {
            Err(e) => Err(e),
            Ok((cfi, sep, p2)) => match sps_pic_order(d, p2) {
                Err(e) => Err(e),
                Ok(p3) => match sps_size(d, p3) {
                    Err(e) => Err(e),
                    Ok((w, h, frame_only, p4)) => match sps_crop(d, p4) {
                        Err(e) => Err(e),
                        Ok(crop) => spec_dimensions(w, h, frame_only, cfi, sep, crop),
                    },
                },
            },
        },
    }
}

/// The SPS of the first NAL unit of type 7 from `pos` on.
pub open spec fn h264_scan(b: Seq<u8>, pos: int) -> core::result::Result<Dimensions, Failure>
    decreases b.len() - pos,
{
    if pos < 0 {
        Err(Failure::InvalidData)
    } else {
        match spec_next_nal(b, pos) {
            None => Err(Failure::InvalidData),
            Some((s, e, next)) => if b[s] % 32 == 7 {
                spec_sps(spec_rbsp(b.subrange(s + 1, e)))
            } else if pos < next <= b.len() {
                h264_scan(b, next)
            } else {
                Err(Failure::InvalidData)
            },
        }
    }
}

/// The probe of an H.264 Annex B stream: one video stream of the first SPS's size.
pub open spec fn spec_parse_h264_annex_b(b: Seq<u8>) -> core::result::Result<Probe, Failure> {
    match h264_scan(b, 0) {
        Err(e) => Err(e),
        Ok(dims) => Ok(Probe { format: "h264", streams: seq![video_stream(0, "h264", dims.width as int,
            dims.height as int, Some(zero_secs()), None)] }),
    }
}

/// Whether the NAL units from `pos` on, the `index`-th of at most eight, reach an SPS
/// that reads, through SEI, PPS, access unit delimiter and filler units only.
pub open spec fn h264_looks_scan(b: Seq<u8>, pos: int, index: nat) -> bool
    decreases 8 - index,
{
    match spec_next_nal(b, pos) {
        None => false,
        Some((s, e, next)) => {
            let t = b[s] % 32;
            if t == 7 {
                spec_sps(spec_rbsp(b.subrange(s + 1, e))) is Ok
            } else if !(t == 6 || t == 8 || t == 9 || t == 12) || index >= 7 {
                false
            } else {
                h264_looks_scan(b, next, index + 1)
            }
        },
    }
}

/// Whether `b` looks like H.264 Annex B: a start code within its first 65 bytes, then
/// an SPS among its first eight NAL units.
pub open spec fn spec_looks_like_h264(b: Seq<u8>) -> bool {
    match spec_start_code(b, 0) {
        None => false,
        Some((p, _)) => p <= 64 && h264_looks_scan(b, 0, 0),
    }
}

/// Whether an SPS of this profile carries chroma format and scaling fields.
fn uses_high_profile_syntax(profile_idc: u32) -> (r: bool)
    ensures
        r == high_profile(profile_idc as int),
{
    profile_idc == 44 || profile_idc == 83 || profile_idc == 86 || profile_idc == 100 || profile_idc == 110
        || profile_idc == 118 || profile_idc == 122 || profile_idc == 128 || profile_idc == 134 || profile_idc == 135
        || profile_idc == 138 || profile_idc == 139 || profile_idc == 244
}

/// Skips a scaling list of `size` entries.
fn skip_scaling_list(bits: &mut BitReader, size: usize) -> (r: Result<()>)
    requires
        0 <= old(bits)@.1 <= old(bits)@.0.len() * 8,
    ensures
        final(bits)@.0 == old(bits)@.0,
        0 <= final(bits)@.1 <= final(bits)@.0.len() * 8,
        match scaling_list(old(bits)@.0, old(bits)@.1, size as nat, 8, 8) {
            Ok(p) => r is Ok && final(bits)@.1 == p,
            Err(e) => outcome(r) == Err::<(), Failure>(e),
        },
{
    let ghost d = bits@.0;
    let mut last_scale: i64 = 8;
    let mut next_scale: i64 = 8;
    let mut i: usize = 0;
    while i < size
        invariant
            bits@.0 == d,
            d == old(bits)@.0,
            i <= size,
            0 <= bits@.1 <= d.len() * 8,
            -256 < last_scale < 256,
            -256 < next_scale < 256,
            scaling_list(d, old(bits)@.1, size as nat, 8, 8)
                == scaling_list(d, bits@.1, (size - i) as nat, last_scale as int, next_scale as int),
        decreases size - i,
    {
        if next_scale != 0 {
            let delta = match read_se(bits, "H.264") { Ok(v) => v, Err(e) => return Err(e) };
            let x = last_scale + delta + 256;
            next_scale = if x >= 0 { x % 256 } else { -((-x) % 256) };
        }
        if next_scale != 0 {
            last_scale = next_scale;
        }
        i = i + 1;
    }
    Ok(())
}

/// Skips the scaling matrices of a high-profile SPS.
fn skip_scaling_matrices(bits: &mut BitReader, chroma_format_idc: u32) -> (r: Result<()>)
    requires
        0 <= old(bits)@.1 <= old(bits)@.0.len() * 8,
    ensures
        final(bits)@.0 == old(bits)@.0,
        0 <= final(bits)@.1 <= final(bits)@.0.len() * 8,
        match scaling_matrices(old(bits)@.0, old(bits)@.1, 0, if chroma_format_idc == 3 { 12 } else { 8 }) {
            Ok(p) => r is Ok && final(bits)@.1 == p,
            Err(e) => outcome(r) == Err::<(), Failure>(e),
        },
{
    let ghost d = bits@.0;
    let count: usize = if chroma_format_idc == 3 { 12 } else { 8 };
    let mut index: usize = 0;
    while index < count
        invariant
            bits@.0 == d,
            d == old(bits)@.0,
            index <= count,
            count == (if chroma_format_idc == 3 { 12usize } else { 8usize }),
            0 <= bits@.1 <= d.len() * 8,
            scaling_matrices(d, old(bits)@.1, 0, count as nat) == scaling_matrices(d, bits@.1, index as nat, count as nat),
        decreases count - index,
    {
        let present = match read_bool(bits) { Ok(v) => v, Err(e) => return Err(e) };
        if present {
            let size: usize = if index < 6 { 16 } else { 64 };
            match skip_scaling_list(bits, size) {
                Ok(()) => {},
                Err(e) => return Err(e),
            }
        }
        index = index + 1;
    }
    Ok(())
}

/// Reads the start of an SPS.
fn read_sps_head(bits: &mut BitReader) -> (r: Result<u32>)
    requires
        old(bits)@.1 == 0,
    ensures
        final(bits)@.0 == old(bits)@.0,
        0 <= final(bits)@.1 <= final(bits)@.0.len() * 8,
        match sps_head(old(bits)@.0) {
            Ok((profile, p)) => r == Ok::<u32, RmpegError>(profile as u32) && final(bits)@.1 == p && 0 <= profile < 256,
            Err(e) => outcome(r) == Err::<u32, Failure>(e),
        },
{
    proof {
        reveal(sps_head);
    }
    let ghost d = bits@.0;
    let _ = bits.fits(0);
    let profile_idc = match read_bits(bits, 8) { Ok(v) => v, Err(e) => return Err(e) };
    proof {
        crate::bits::lemma_msb_bound(d, 0, 8);
        reveal_with_fuel(crate::bits::two_pow, 9);
    }
    match read_bits(bits, 8) { Ok(_) => {}, Err(e) => return Err(e) }
    match read_bits(bits, 8) { Ok(_) => {}, Err(e) => return Err(e) }
    match read_ue(bits, "H.264") { Ok(_) => {}, Err(e) => return Err(e) }
    Ok(profile_idc)
}

/// Reads the chroma fields of an SPS of profile `profile_idc`.
fn read_sps_chroma(bits: &mut BitReader, profile_idc: u32) -> (r: Result<(u32, bool)>)
    requires
        0 <= old(bits)@.1 <= old(bits)@.0.len() * 8,
    ensures
        final(bits)@.0 == old(bits)@.0,
        0 <= final(bits)@.1 <= final(bits)@.0.len() * 8,
        match sps_chroma(old(bits)@.0, old(bits)@.1, profile_idc as int) {
            Ok((cfi, sep, p)) => r == Ok::<(u32, bool), RmpegError>((cfi as u32, sep)) && final(bits)@.1 == p && 0 <= cfi <= 3,
            Err(e) => outcome(r) == Err::<(u32, bool), Failure>(e),
        },
{
    proof {
        reveal(sps_chroma);
    }
    if !uses_high_profile_syntax(profile_idc) {
        return Ok((1, false));
    }
    let chroma_format_idc = match read_ue(bits, "H.264") { Ok(v) => v, Err(e) => return Err(e) };
    if chroma_format_idc > 3 {
        return Err(RmpegError::InvalidData(with_number("invalid H.264 chroma_format_idc ", chroma_format_idc as u64)));
    }
    let mut separate = false;
    if chroma_format_idc == 3 {
        separate = match read_bool(bits) { Ok(v) => v, Err(e) => return Err(e) };
    }
    match read_ue(bits, "H.264") { Ok(_) => {}, Err(e) => return Err(e) }
    match read_ue(bits, "H.264") { Ok(_) => {}, Err(e) => return Err(e) }
    match read_bool(bits) { Ok(_) => {}, Err(e) => return Err(e) }
    let present = match read_bool(bits) { Ok(v) => v, Err(e) => return Err(e) };
    if present {
        match skip_scaling_matrices(bits, chroma_format_idc) { Ok(()) => {}, Err(e) => return Err(e) }
    }
    Ok((chroma_format_idc, separate))
}

/// Skips the picture order count fields of an SPS.
fn skip_sps_pic_order(bits: &mut BitReader) -> (r: Result<()>)
    requires
        0 <= old(bits)@.1 <= old(bits)@.0.len() * 8,
    ensures
        final(bits)@.0 == old(bits)@.0,
        0 <= final(bits)@.1 <= final(bits)@.0.len() * 8,
        match sps_pic_order(old(bits)@.0, old(bits)@.1) {
            Ok(p) => r is Ok && final(bits)@.1 == p,
            Err(e) => outcome(r) == Err::<(), Failure>(e),
        },
{
    proof {
        reveal(sps_pic_order);
    }
    let ghost d = bits@.0;
    match read_ue(bits, "H.264") { Ok(_) => {}, Err(e) => return Err(e) }
    let kind = match read_ue(bits, "H.264") { Ok(v) => v, Err(e) => return Err(e) };
    if kind == 0 {
        match read_ue(bits, "H.264") { Ok(_) => {}, Err(e) => return Err(e) }
    } else if kind == 1 {
        match read_bool(bits) { Ok(_) => {}, Err(e) => return Err(e) }
        match read_se(bits, "H.264") { Ok(_) => {}, Err(e) => return Err(e) }
        match read_se(bits, "H.264") { Ok(_) => {}, Err(e) => return Err(e) }
        let cycle = match read_ue(bits, "H.264") { Ok(v) => v, Err(e) => return Err(e) };
        let ghost p4 = bits@.1;
        let mut i: u32 = 0;
        while i < cycle
            invariant
                bits@.0 == d,
                d == old(bits)@.0,
                sps_pic_order(d, old(bits)@.1) == se_run(d, p4, cycle as nat),
                i <= cycle,
                0 <= bits@.1 <= d.len() * 8,
                se_run(d, p4, cycle as nat) == se_run(d, bits@.1, (cycle - i) as nat),
            decreases cycle - i,
        {
            match read_se(bits, "H.264") { Ok(_) => {}, Err(e) => return Err(e) }
            i = i + 1;
        }
    }
    Ok(())
}

/// Reads the frame size fields of an SPS.
fn read_sps_size(bits: &mut BitReader) -> (r: Result<(u32, u32, bool)>)
    requires
        0 <= old(bits)@.1 <= old(bits)@.0.len() * 8,
    ensures
        final(bits)@.0 == old(bits)@.0,
        0 <= final(bits)@.1 <= final(bits)@.0.len() * 8,
        match sps_size(old(bits)@.0, old(bits)@.1) {
            Ok((w, h, f, p)) => r == Ok::<(u32, u32, bool), RmpegError>((w as u32, h as u32, f)) && final(bits)@.1 == p
                && 0 <= w < u32::MAX && 0 <= h < u32::MAX,
            Err(e) => outcome(r) == Err::<(u32, u32, bool), Failure>(e),
        },
{
    proof {
        reveal(sps_size);
    }
    match read_ue(bits, "H.264") { Ok(_) => {}, Err(e) => return Err(e) }
    match read_bool(bits) { Ok(_) => {}, Err(e) => return Err(e) }
    let width_mbs = match read_ue(bits, "H.264") { Ok(v) => v, Err(e) => return Err(e) };
    let height_units = match read_ue(bits, "H.264") { Ok(v) => v, Err(e) => return Err(e) };
    let frame_only = match read_bool(bits) { Ok(v) => v, Err(e) => return Err(e) };
    if !frame_only {
        match read_bool(bits) { Ok(_) => {}, Err(e) => return Err(e) }
    }
    match read_bool(bits) { Ok(_) => {}, Err(e) => return Err(e) }
    Ok((width_mbs, height_units, frame_only))
}

/// Reads the crop offsets of an SPS.
fn read_sps_crop(bits: &mut BitReader) -> (r: Result<Cropping>)
    requires
        0 <= old(bits)@.1 <= old(bits)@.0.len() * 8,
    ensures
        outcome(r) == sps_crop(old(bits)@.0, old(bits)@.1),
{
    proof {
        reveal(sps_crop);
    }
    if !match read_bool(bits) { Ok(v) => v, Err(e) => return Err(e) } {
        return Ok(Cropping { left: 0, right: 0, top: 0, bottom: 0 });
    }
    let left = match read_ue(bits, "H.264") { Ok(v) => v, Err(e) => return Err(e) };
    let right = match read_ue(bits, "H.264") { Ok(v) => v, Err(e) => return Err(e) };
    let top = match read_ue(bits, "H.264") { Ok(v) => v, Err(e) => return Err(e) };
    let bottom = match read_ue(bits, "H.264") { Ok(v) => v, Err(e) => return Err(e) };
    Ok(Cropping { left, right, top, bottom })
}

/// The crop units of a chroma format.
fn crop_units(chroma_format_idc: u32, separate_colour_plane_flag: bool, frame_mbs_only_flag: bool) -> (r: (u32, u32))
    ensures
        (r.0 as int, r.1 as int) == spec_crop_units(chroma_format_idc as int, separate_colour_plane_flag, frame_mbs_only_flag),
{
    let field: u32 = if frame_mbs_only_flag { 1 } else { 2 };
    if chroma_format_idc == 0 || separate_colour_plane_flag {
        return (1, field);
    }
    let (sub_width, sub_height): (u32, u32) = if chroma_format_idc == 1 { (2, 2) } else if chroma_format_idc == 2 { (2, 1) } else { (1, 1) };
    (sub_width, sub_height * field)
}

/// The picture size from the SPS fields.
fn dimensions_from_sps(w1: u32, h1: u32, frame_only: bool, chroma_format_idc: u32, separate: bool, crop: Cropping)
    -> (r: Result<Dimensions>)
    ensures
        outcome(r) == spec_dimensions(w1 as int, h1 as int, frame_only, chroma_format_idc as int, separate, crop),
{
    proof {
        reveal(spec_dimensions);
    }
    if w1 == u32::MAX {
        return Err(invalid_data("H.264 macroblock width overflow"));
    }
    let width = match (w1 + 1).checked_mul(16) { Some(v) => v, None => return Err(invalid_data("H.264 width overflow")) };
    let factor: u32 = if frame_only { 1 } else { 2 };
    if h1 == u32::MAX {
        return Err(invalid_data("H.264 macroblock height overflow"));
    }
    let height = match (h1 + 1).checked_mul(16) {
        Some(v) => match v.checked_mul(factor) { Some(v2) => v2, None => return Err(invalid_data("H.264 height overflow")) },
        None => return Err(invalid_data("H.264 height overflow")),
    };
    let (unit_x, unit_y) = crop_units(chroma_format_idc, separate, frame_only);
    let crop_w = match crop.left.checked_add(crop.right) {
        Some(v) => match v.checked_mul(unit_x) { Some(v2) => v2, None => return Err(invalid_data("H.264 crop width overflow")) },
        None => return Err(invalid_data("H.264 crop width overflow")),
    };
    let crop_h = match crop.top.checked_add(crop.bottom) {
        Some(v) => match v.checked_mul(unit_y) { Some(v2) => v2, None => return Err(invalid_data("H.264 crop height overflow")) },
        None => return Err(invalid_data("H.264 crop height overflow")),
    };
    if width < crop_w {
        return Err(invalid_data("H.264 crop exceeds width"));
    }
    if height < crop_h {
        return Err(invalid_data("H.264 crop exceeds height"));
    }
    let w = width - crop_w;
    let h = height - crop_h;
    if w == 0 || h == 0 {
        return Err(invalid_data("H.264 dimensions must be nonzero"));
    }
    Ok(Dimensions { width: w, height: h })
}

/// Reads the picture size from an SPS NAL payload (after its header byte).
pub fn parse_sps(nal_payload: &[u8]) -> (r: Result<Dimensions>)
    ensures
        outcome(r) == spec_sps(spec_rbsp(nal_payload@)),
{
    proof {
        reveal(spec_sps);
    }
    let rbsp = rbsp_from_ebsp(nal_payload);
    let mut bits = BitReader::new(rbsp.as_slice());
    let profile_idc = match read_sps_head(&mut bits) { Ok(v) => v, Err(e) => return Err(e) };
    let (chroma_format_idc, separate) = match read_sps_chroma(&mut bits, profile_idc) { Ok(v) => v, Err(e) => return Err(e) };
    match skip_sps_pic_order(&mut bits) { Ok(()) => {}, Err(e) => return Err(e) }
    let (w1, h1, frame_only) = match read_sps_size(&mut bits) { Ok(v) => v, Err(e) => return Err(e) };
    let crop = match read_sps_crop(&mut bits) { Ok(v) => v, Err(e) => return Err(e) };
    dimensions_from_sps(w1, h1, frame_only, chroma_format_idc, separate, crop)
}

/// Probes an H.264 Annex B stream by its first SPS.
pub fn parse_h264_annex_b(bytes: &[u8]) -> (r: Result<ProbeDocument>)
    ensures
        probe_outcome(r) == spec_parse_h264_annex_b(bytes@),
{
    let mut units = AnnexBNalUnits::new(bytes);
    loop
        invariant
            units@.0 == bytes@,
            0 <= units@.1,
            h264_scan(bytes@, 0) == h264_scan(bytes@, units@.1),
        decreases bytes@.len() - units@.1,
    {
        let ghost pos = units@.1;
        proof {
            lemma_next_nal_advances(bytes@, pos);
        }
        let nal = match units.next_unit() {
            Some(n) => n,
            None => return Err(invalid_data("missing H.264 SPS")),
        };
        if nal[0] % 32 == 7 {
            let ghost found = spec_next_nal(bytes@, pos)->0;
            assert(nal@.subrange(1, nal@.len() as int) =~= bytes@.subrange(found.0 + 1, found.1));
            let dims = match parse_sps(&nal[1..nal.len()]) { Ok(d) => d, Err(e) => return Err(e) };
            return Ok(ProbeDocument::single("h264", StreamMetadata::video(0, "h264", dims.width, dims.height,
                Some(zero_seconds()), None)));
        }
    }
}

/// Whether `bytes` looks like an H.264 Annex B stream.
pub fn looks_like_h264_annex_b(bytes: &[u8]) -> (r: bool)
    ensures
        r == spec_looks_like_h264(bytes@),
{
    match find_start_code(bytes, 0) {
        None => return false,
        Some((p, _)) => if p > 64 {
            return false;
        },
    }
    let mut units = AnnexBNalUnits::new(bytes);
    let mut index: usize = 0;
    loop
        invariant
            units@.0 == bytes@,
            0 <= units@.1,
            index < 8,
            spec_looks_like_h264(bytes@) == h264_looks_scan(bytes@, units@.1, index as nat),
        decreases 8 - index,
    {
        let ghost pos = units@.1;
        proof {
            lemma_next_nal_advances(bytes@, pos);
        }
        let nal = match units.next_unit() {
            Some(n) => n,
            None => return false,
        };
        let nal_type = nal[0] % 32;
        if nal_type == 7 {
            let ghost found = spec_next_nal(bytes@, pos)->0;
            assert(nal@.subrange(1, nal@.len() as int) =~= bytes@.subrange(found.0 + 1, found.1));
            return parse_sps(&nal[1..nal.len()]).is_ok();
        }
        if !(nal_type == 6 || nal_type == 8 || nal_type == 9 || nal_type == 12) || index >= 7 {
            return false;
        }
        index = index + 1;
    }
}


/// The picture size of an SPS counts frames, not fields: without the frame-only flag
/// each map unit is a pair of field macroblock rows, so the same SPS reports the same
/// width and twice the height (its vertical crop unit doubling too); an uncropped SPS
/// with the flag reports 16 samples per macroblock in each direction.
pub proof fn law_sps_field_pictures_double_height(w1: int, h1: int, cfi: int, sep: bool, crop: Cropping)
    ensures
        spec_dimensions(w1, h1, true, cfi, sep, crop) matches Ok(frame)
            ==> (spec_dimensions(w1, h1, false, cfi, sep, crop) matches Ok(fields)
            ==> fields.width == frame.width && fields.height == 2 * frame.height),
        crop.left == 0 && crop.right == 0 && crop.top == 0 && crop.bottom == 0
            ==> (spec_dimensions(w1, h1, true, cfi, sep, crop) matches Ok(frame)
            ==> frame.width == (w1 + 1) * 16 && frame.height == (h1 + 1) * 16),
{
    reveal(spec_dimensions);
    let ut = spec_crop_units(cfi, sep, true);
    let uf = spec_crop_units(cfi, sep, false);
    assert(uf.0 == ut.0 && uf.1 == 2 * ut.1);
    let tb = crop.top + crop.bottom;
    assert(tb * uf.1 == 2 * (tb * ut.1)) by (nonlinear_arith)
        requires
            uf.1 == 2 * ut.1,
    ;
    assert((h1 + 1) * 16 * 2int == 2 * ((h1 + 1) * 16 * 1int)) by (nonlinear_arith);
    assert((h1 + 1) * 16 * 1int == (h1 + 1) * 16) by (nonlinear_arith);
}

} // verus!
