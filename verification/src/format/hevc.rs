use vstd::prelude::*;
use crate::bytes::sat_add;
use crate::error::{invalid_data, outcome, unexpected_eof, Failure, Result, RmpegError};
use crate::metadata::{probe_outcome, video_stream, zero_secs, zero_seconds, Probe, ProbeDocument, StreamMetadata};
use crate::bits::{msb, stop_bit_then_zeros, BitReader};
use crate::format::nal::{lemma_next_nal_advances, rbsp_from_ebsp, rd_bits, read_bits, read_bool, read_ue, spec_next_nal, spec_rbsp, spec_start_code, spec_ue, then_bits, then_ue, find_start_code, AnnexBNalUnits};
use crate::error::with_number;

verus! {

/// A luma picture size.
#[derive(Debug, Clone, Copy, PartialEq, Eq)]
pub struct Dimensions {
    pub width: u32,
    pub height: u32,
}

/// What an SPS gives: the cropped size, and whether the fields after it read well
/// enough for that size to be reported.
#[derive(Debug, Clone, Copy, PartialEq, Eq)]
pub struct SpsMetadata {
    pub dimensions: Dimensions,
    pub usable_dimensions: bool,
}

/// The conformance window of an SPS, in crop units.
#[derive(Debug, Clone, Copy, PartialEq, Eq)]
pub struct Cropping {
    pub left: u32,
    pub right: u32,
    pub top: u32,
    pub bottom: u32,
}

impl SpsMetadata {
    /// The size to report: the SPS's size when usable, else zero by zero.
    pub fn visible_dimensions(self) -> (d: Dimensions)
        ensures
            d == (if self.usable_dimensions { self.dimensions } else { Dimensions { width: 0, height: 0 } }),
    {
        if self.usable_dimensions { self.dimensions } else { Dimensions { width: 0, height: 0 } }
    }
}

/// The position after `n` flag bits read one by one, or the end-of-data error.
pub open spec fn skip_flags(d: Seq<u8>, r: core::result::Result<int, Failure>, n: int) -> core::result::Result<int, Failure> {
    then_bits(d, r, n)
}

/// The sub-layer profile and level fields of a profile-tier-level structure, from
/// sub-layer `i` on, whose present flags start at bit `flags`.
pub open spec fn sublayers(d: Seq<u8>, r: core::result::Result<int, Failure>, flags: int, i: nat, n: nat)
    -> core::result::Result<int, Failure>
    decreases n - i,
{
    if i >= n {
        r
    } else {
        let profile = msb(d, flags + 2 * i, 1) == 1;
        let level = msb(d, flags + 2 * i + 1, 1) == 1;
        let r1 = if profile { then_bits(d, then_bits(d, then_bits(d, r, 8), 32), 48) } else { r };
        let r2 = if level { then_bits(d, r1, 8) } else { r1 };
        match r2 {
            Err(e) => Err(e),
            Ok(q) => sublayers(d, Ok(q), flags, i + 1, n),
        }
    }
}

/// The position after a profile-tier-level structure with `n` sub-layers beyond the
/// first.
#[verifier::opaque]
pub open spec fn spec_ptl(d: Seq<u8>, p: int, n: int) -> core::result::Result<int, Failure> {
    let r1 = then_bits(d, then_bits(d, then_bits(d, then_bits(d, Ok(p), 8), 32), 48), 8);
    match r1 {
        Err(e) => Err(e),
        Ok(_) => ptl_flags(d, p + 96, n),
    }
}

/// The sub-layer present flags at `flags`, the reserved bits after them and the
/// sub-layer fields.
pub open spec fn ptl_flags(d: Seq<u8>, flags: int, n: int) -> core::result::Result<int, Failure> {
    let r2 = skip_flags(d, Ok(flags), 2 * n);
    let r3 = if n > 0 { skip_flags(d, r2, 2 * (8 - n)) } else { r2 };
    sublayers(d, r3, flags, 0, n as nat)
}

/// The first fields of an SPS: the sub-layer count, chroma format, separate plane
/// flag, coded size, conformance window and the position after them.
#[verifier::opaque]
pub open spec fn sps_core(d: Seq<u8>) -> core::result::Result<(int, int, bool, int, int, Cropping, int), Failure> {
    match rd_bits(d, 0, 4) {
        Err(e) => Err(e),
        Ok((_, p1)) => match rd_bits(d, p1, 3) {
            Err(e) => Err(e),
            Ok((n, p2)) => if n > 6 {
                Err(Failure::InvalidData)
            } else {
                match then_ue(d, spec_ptl_or(d, then_bits(d, Ok(p2), 1), n)) {
                    Err(e) => Err(e),
                    Ok(p3) => match spec_ue(d, p3) {
                        Err(e) => Err(e),
                        Ok((cfi, p4)) => if cfi > 3 {
                            Err(Failure::InvalidData)
                        } else {
                            match (if cfi == 3 { rd_bits(d, p4, 1) } else { Ok((0, p4)) }) {
                                Err(e) => Err(e),
                                Ok((sep, p5)) => match spec_ue(d, p5) {
                                    Err(e) => Err(e),
                                    Ok((w, p6)) => match spec_ue(d, p6) {
                                        Err(e) => Err(e),
                                        Ok((h, p7)) => match window(d, p7) {
                                            Err(e) => Err(e),
                                            Ok((crop, p8)) => Ok((n, cfi, sep == 1, w, h, crop, p8)),
                                        },
                                    },
                                },
                            }
                        },
                    },
                }
            },
        },
    }
}

/// A profile-tier-level structure after a position that may already have failed.
pub open spec fn spec_ptl_or(d: Seq<u8>, r: core::result::Result<int, Failure>, n: int) -> core::result::Result<int, Failure> {
    match r {
        Err(e) => Err(e),
        Ok(p) => spec_ptl(d, p, n),
    }
}

/// The conformance window at `p`, behind its present flag, and the position after it.
pub open spec fn window(d: Seq<u8>, p: int) -> core::result::Result<(Cropping, int), Failure> {
    match rd_bits(d, p, 1) {
        Err(e) => Err(e),
        Ok((flag, q)) => if flag == 0 {
            Ok((Cropping { left: 0, right: 0, top: 0, bottom: 0 }, q))
        } else {
            match spec_ue(d, q) {
                Err(e) => Err(e),
                Ok((l, q1)) => match spec_ue(d, q1) {
                    Err(e) => Err(e),
                    Ok((r, q2)) => match spec_ue(d, q2) {
                        Err(e) => Err(e),
                        Ok((t, q3)) => match spec_ue(d, q3) {
                            Err(e) => Err(e),
                            Ok((b, q4)) => Ok((Cropping { left: l as u32, right: r as u32, top: t as u32, bottom: b as u32 }, q4)),
                        },
                    },
                },
            }
        },
    }
}

/// The position after `n` groups of three unsigned Exp-Golomb codes.
pub open spec fn ue_triples(d: Seq<u8>, r: core::result::Result<int, Failure>, n: nat) -> core::result::Result<int, Failure>
    decreases n,
{
    if n == 0 {
        r
    } else {
        match then_ue(d, then_ue(d, then_ue(d, r))) {
            Err(e) => Err(e),
            Ok(q) => ue_triples(d, Ok(q), (n - 1) as nat),
        }
    }
}

/// The position after `count` groups of ordering fields and six more codes.
pub open spec fn ordering_fields(d: Seq<u8>, p: int, count: nat) -> core::result::Result<int, Failure> {
    then_ue(d, then_ue(d, then_ue(d, then_ue(d, then_ue(d, then_ue(d, ue_triples(d, Ok(p), count)))))))
}

/// The bit depths, POC width and sub-layer ordering fields after the window: the POC
/// width less four and the position after them; luma and chroma depths must agree.
#[verifier::opaque]
pub open spec fn tail_depths(d: Seq<u8>, p: int, n: int) -> core::result::Result<(int, int), Failure> {
    match spec_ue(d, p) {
        Err(e) => Err(e),
        Ok((luma, p1)) => match spec_ue(d, p1) {
            Err(e) => Err(e),
            Ok((chroma, p2)) => if luma != chroma {
                Err(Failure::InvalidData)
            } else {
                match spec_ue(d, p2) {
                    Err(e) => Err(e),
                    Ok((poc, p3)) => match rd_bits(d, p3, 1) {
                        Err(e) => Err(e),
                        Ok((all, p4)) => match ordering_fields(d, p4, (if all == 1 { n + 1 } else { 1 }) as nat) {
                            Err(e) => Err(e),
                            Ok(p6) => Ok((poc, p6)),
                        },
                    },
                }
            },
        },
    }
}

/// The position after `n` long-term reference pictures of `width`-bit POC values.
pub open spec fn long_term_refs(d: Seq<u8>, r: core::result::Result<int, Failure>, n: nat, width: int)
    -> core::result::Result<int, Failure>
    decreases n,
{
    if n == 0 {
        r
    } else {
        match then_bits(d, then_bits(d, r, width), 1) {
            Err(e) => Err(e),
            Ok(q) => long_term_refs(d, Ok(q), (n - 1) as nat, width),
        }
    }
}

/// The fields from the scaling flags to the long-term references: `Ok(None)` where the
/// SPS is accepted without reading further, else the position after them.
#[verifier::opaque]
pub open spec fn tail_refs(d: Seq<u8>, p: int, poc: int) -> core::result::Result<Option<int>, Failure> {
    match rd_bits(d, p, 1) {
        Err(e) => Err(e),
        Ok((scaling, p1)) => {
            let second = if scaling == 1 { rd_bits(d, p1, 1) } else { Ok((0, p1)) };
            match second {
                Err(e) => Err(e),
                Ok((data, p2)) => if scaling == 1 && data == 1 {
                    Ok(None)
                } else {
                    match rd_bits(d, p2, 1) {
                        Err(e) => Err(e),
                        Ok(_) => match rd_bits(d, p2 + 1, 1) {
                            Err(e) => Err(e),
                            Ok(_) => match rd_bits(d, p2 + 2, 1) {
                                Err(e) => Err(e),
                                Ok((pcm, p3)) => {
                                    let r4 = if pcm == 1 {
                                        then_bits(d, then_ue(d, then_ue(d, then_bits(d, then_bits(d, Ok(p3), 4), 4))), 1)
                                    } else {
                                        Ok(p3)
                                    };
                                    match r4 {
                                        Err(e) => Err(e),
                                        Ok(p4) => match spec_ue(d, p4) {
                                            Err(e) => Err(e),
                                            Ok((sets, p5)) => if sets != 0 {
                                                Ok(None)
                                            } else {
                                                match rd_bits(d, p5, 1) {
                                                    Err(e) => Err(e),
                                                    Ok((lt, p6)) => if lt == 0 {
                                                        Ok(Some(p6))
                                                    } else {
                                                        match spec_ue(d, p6) {
                                                            Err(e) => Err(e),
                                                            Ok((count, p7)) => if poc + 4 > u32::MAX {
                                                                Err(Failure::InvalidData)
                                                            } else {
                                                                match long_term_refs(d, Ok(p7), count as nat, poc + 4) {
                                                                    Err(e) => Err(e),
                                                                    Ok(p8) => Ok(Some(p8)),
                                                                }
                                                            },
                                                        }
                                                    },
                                                }
                                            },
                                        },
                                    }
                                },
                            },
                        },
                    }
                },
            }
        },
    }
}

/// The VUI aspect ratio, overscan and video signal fields.
#[verifier::opaque]
pub open spec fn vui_signal(d: Seq<u8>, p: int) -> core::result::Result<int, Failure> {
    let aspect = match rd_bits(d, p, 1) {
        Err(e) => Err(e),
        Ok((f, q)) => if f == 1 {
            match rd_bits(d, q, 8) {
                Err(e) => Err(e),
                Ok((idc, q2)) => if idc == 255 { then_bits(d, then_bits(d, Ok(q2), 16), 16) } else { Ok(q2) },
            }
        } else {
            Ok(q)
        },
    };
    let overscan = flagged(d, aspect, 1);
    match overscan {
        Err(e) => Err(e),
        Ok(q) => match rd_bits(d, q, 1) {
            Err(e) => Err(e),
            Ok((f, q1)) => if f == 1 {
                flagged(d, then_bits(d, then_bits(d, Ok(q1), 3), 1), 24)
            } else {
                Ok(q1)
            },
        },
    }
}

/// The VUI fields from the aspect ratio to the default display window.
#[verifier::opaque]
pub open spec fn vui_display(d: Seq<u8>, p: int) -> core::result::Result<int, Failure> {
    let chroma_loc = match vui_signal(d, p) {
        Err(e) => Err(e),
        Ok(q) => match rd_bits(d, q, 1) {
            Err(e) => Err(e),
            Ok((f, q1)) => if f == 1 { then_ue(d, then_ue(d, Ok(q1))) } else { Ok(q1) },
        },
    };
    match then_bits(d, then_bits(d, then_bits(d, chroma_loc, 1), 1), 1) {
        Err(e) => Err(e),
        Ok(q) => match rd_bits(d, q, 1) {
            Err(e) => Err(e),
            Ok((f, q1)) => if f == 1 { then_ue(d, then_ue(d, then_ue(d, then_ue(d, Ok(q1))))) } else { Ok(q1) },
        },
    }
}

/// The VUI timing and bitstream restriction fields: whether the SPS goes on after them
/// (a set HRD flag under timing info stops it) and the position after them.
#[verifier::opaque]
pub open spec fn vui_timing(d: Seq<u8>, q: int) -> core::result::Result<(bool, int), Failure> {
    match rd_bits(d, q, 1) {
        Err(e) => Err(e),
        Ok((timing, q1)) => {
            let t = if timing == 1 {
                match then_bits(d, then_bits(d, Ok(q1), 32), 32) {
                    Err(e) => Err(e),
                    Ok(q2) => match rd_bits(d, q2, 1) {
                        Err(e) => Err(e),
                        Ok((f, q3)) => {
                            let q4r = if f == 1 { then_ue(d, Ok(q3)) } else { Ok(q3) };
                            match q4r {
                                Err(e) => Err(e),
                                Ok(q4) => match rd_bits(d, q4, 1) {
                                    Err(e) => Err(e),
                                    Ok((hrd, q5)) => Ok((hrd == 1, q5)),
                                },
                            }
                        },
                    },
                }
            } else {
                Ok((false, q1))
            };
            match t {
                Err(e) => Err(e),
                Ok((stop, q6)) => if stop {
                    Ok((false, q6))
                } else {
                    match rd_bits(d, q6, 1) {
                        Err(e) => Err(e),
                        Ok((f, q7)) => if f == 1 {
                            match then_ue(d, then_ue(d, then_ue(d, then_ue(d, then_ue(d,
                                then_bits(d, then_bits(d, then_bits(d, Ok(q7), 1), 1), 1)))))) {
                                Err(e) => Err(e),
                                Ok(q8) => Ok((true, q8)),
                            }
                        } else {
                            Ok((true, q7))
                        },
                    }
                },
            }
        },
    }
}

/// The VUI parameters at `p`: whether the SPS goes on after them and the position
/// after them.
pub open spec fn spec_vui(d: Seq<u8>, p: int) -> core::result::Result<(bool, int), Failure> {
    match vui_display(d, p) {
        Err(e) => Err(e),
        Ok(q) => vui_timing(d, q),
    }
}

/// A flag bit after a position that may already have failed, followed by `n` bits when
/// it is set.
pub open spec fn flagged(d: Seq<u8>, r: core::result::Result<int, Failure>, n: int) -> core::result::Result<int, Failure> {
    match r {
        Err(e) => Err(e),
        Ok(q) => match rd_bits(d, q, 1) {
            Err(e) => Err(e),
            Ok((f, q1)) => if f == 1 { then_bits(d, Ok(q1), n) } else { Ok(q1) },
        },
    }
}

/// The last fields of an SPS at `p`: two flags, the VUI parameters and the extension
/// flags; extension flags with nothing but trailing bits after them are an error.
#[verifier::opaque]
pub open spec fn tail_end(d: Seq<u8>, p: int) -> core::result::Result<(), Failure> {
    match then_bits(d, then_bits(d, Ok(p), 1), 1) {
        Err(e) => Err(e),
        Ok(p1) => match rd_bits(d, p1, 1) {
            Err(e) => Err(e),
            Ok((vui, p2)) => {
                let after = if vui == 1 { spec_vui(d, p2) } else { Ok((true, p2)) };
                match after {
                    Err(e) => Err(e),
                    Ok((go_on, p3)) => if !go_on {
                        Ok(())
                    } else {
                        match rd_bits(d, p3, 1) {
                            Err(e) => Err(e),
                            Ok((ext, p4)) => if ext == 0 {
                                Ok(())
                            } else {
                                match rd_bits(d, p4, 4) {
                                    Err(e) => Err(e),
                                    Ok((flags, p5)) => match rd_bits(d, p5, 4) {
                                        Err(e) => Err(e),
                                        Ok((more, p6)) => if (flags != 0 || more != 0) && stop_bit_then_zeros(d, p6, false) {
                                            Err(Failure::InvalidData)
                                        } else {
                                            Ok(())
                                        },
                                    },
                                }
                            },
                        }
                    },
                }
            },
        },
    }
}

/// Whether the fields after the window read: bit depths, ordering, references, VUI and
/// extensions.
pub open spec fn spec_tail(d: Seq<u8>, p: int, n: int) -> core::result::Result<(), Failure> {
    match tail_depths(d, p, n) {
        Err(e) => Err(e),
        Ok((poc, p1)) => match tail_refs(d, p1, poc) {
            Err(e) => Err(e),
            Ok(None) => Ok(()),
            Ok(Some(p2)) => tail_end(d, p2),
        },
    }
}

/// The size an SPS gives: the coded size less the window in crop units; an error when a
/// step leaves `u32` or the size is empty.
#[verifier::opaque]
pub open spec fn spec_dimensions(w: int, h: int, cfi: int, sep: bool, crop: Cropping) -> core::result::Result<Dimensions, Failure> {
    let ux = if cfi == 0 || sep { 1int } else if cfi == 1 || cfi == 2 { 2int } else { 1int };
    let uy = if cfi == 0 || sep { 1int } else if cfi == 1 { 2int } else { 1int };
    let cw = (crop.left + crop.right) * ux;
    let ch = (crop.top + crop.bottom) * uy;
    if crop.left + crop.right > u32::MAX || cw > u32::MAX || crop.top + crop.bottom > u32::MAX || ch > u32::MAX
        || w < cw || h < ch || w == cw || h == ch {
        Err(Failure::InvalidData)
    } else {
        Ok(Dimensions { width: (w - cw) as u32, height: (h - ch) as u32 })
    }
}

/// The SPS whose RBSP is `d`.
#[verifier::opaque]
pub open spec fn spec_sps(d: Seq<u8>) -> core::result::Result<SpsMetadata, Failure> {
    match sps_core(d) {
        Err(e) => Err(e),
        Ok((n, cfi, sep, w, h, crop, p)) => match spec_dimensions(w, h, cfi, sep, crop) {
            Err(e) => Err(e),
            Ok(dims) => Ok(SpsMetadata { dimensions: dims, usable_dimensions: spec_tail(d, p, n) is Ok }),
        },
    }
}

/// The type of a NAL unit of two header bytes or more.
pub open spec fn spec_nal_type(nal: Seq<u8>) -> Option<int> {
    if nal.len() < 2 { None } else { Some(((nal[0] / 2) % 64) as int) }
}

/// The SPS of the first NAL unit of type 33 from `pos` on.
pub open spec fn hevc_scan(b: Seq<u8>, pos: int) -> core::result::Result<SpsMetadata, Failure>
    decreases b.len() - pos,
{
    if pos < 0 {
        Err(Failure::InvalidData)
    } else {
        match spec_next_nal(b, pos) {
            None => Err(Failure::InvalidData),
            Some((s, e, next)) => if spec_nal_type(b.subrange(s, e)) == Some(33int) {
                spec_sps(spec_rbsp(b.subrange(s + 2, e)))
            } else if pos < next <= b.len() {
                hevc_scan(b, next)
            } else {
                Err(Failure::InvalidData)
            },
        }
    }
}

/// The probe of an HEVC Annex B stream: one video stream of the first SPS's size, zero
/// by zero when the SPS's later fields do not read.
pub open spec fn spec_parse_hevc_annex_b(b: Seq<u8>) -> core::result::Result<Probe, Failure> {
    match hevc_scan(b, 0) {
        Err(e) => Err(e),
        Ok(m) => {
            let dims = if m.usable_dimensions { m.dimensions } else { Dimensions { width: 0, height: 0 } };
            Ok(Probe { format: "hevc", streams: seq![video_stream(0, "hevc", dims.width as int,
                dims.height as int, Some(zero_secs()), None)] })
        },
    }
}

/// Whether the NAL units from `pos` on, the `index`-th of at most sixteen, reach an SPS
/// that reads through parameter sets, delimiters, SEI and end-of-stream units only.
pub open spec fn hevc_looks_scan(b: Seq<u8>, pos: int, index: nat) -> bool
    decreases 16 - index,
{
    match spec_next_nal(b, pos) {
        None => false,
        Some((s, e, next)) => match spec_nal_type(b.subrange(s, e)) {
            None => false,
            Some(t) => if t == 33 {
                spec_sps(spec_rbsp(b.subrange(s + 2, e))) is Ok
            } else if !(32 <= t <= 40) || index >= 15 {
                false
            } else {
                hevc_looks_scan(b, next, index + 1)
            },
        },
    }
}

/// Whether `b` looks like HEVC Annex B: a start code within its first 65 bytes, then an
/// SPS among its first sixteen NAL units.
pub open spec fn spec_looks_like_hevc(b: Seq<u8>) -> bool {
    match spec_start_code(b, 0) {
        None => false,
        Some((p, _)) => p <= 64 && hevc_looks_scan(b, 0, 0),
    }
}

/// The type of a NAL unit, when it has both header bytes.
fn nal_type(nal: &[u8]) -> (r: Option<u8>)
    ensures
        match r {
            Some(t) => spec_nal_type(nal@) == Some(t as int),
            None => spec_nal_type(nal@) is None,
        },
{
    if nal.len() < 2 {
        return None;
    }
    Some((nal[0] / 2) % 64)
}

/// Skips `count` bits, failing with the end-of-data error past the end.
fn skip_bits(bits: &mut BitReader, count: usize) -> (r: Result<()>)
    requires
        0 <= old(bits)@.1 <= old(bits)@.0.len() * 8,
    ensures
        final(bits)@.0 == old(bits)@.0,
        0 <= final(bits)@.1 <= final(bits)@.0.len() * 8,
        match then_bits(old(bits)@.0, Ok(old(bits)@.1), count as int) {
            Ok(p) => r is Ok && final(bits)@.1 == p,
            Err(e) => outcome(r) == Err::<(), Failure>(e),
        },
{
    match bits.skip(count) {
        Some(()) => Ok(()),
        None => {
            let len = bits.byte_len();
            Err(unexpected_eof(sat_add(len, 1), len))
        },
    }
}

/// Reads the `n` pairs of sub-layer present flags.
fn read_sublayer_flags(bits: &mut BitReader, n: usize) -> (r: Result<(Vec<bool>, Vec<bool>)>)
    requires
        0 <= old(bits)@.1 <= old(bits)@.0.len() * 8,
        n <= 6,
    ensures
        final(bits)@.0 == old(bits)@.0,
        0 <= final(bits)@.1 <= final(bits)@.0.len() * 8,
        match skip_flags(old(bits)@.0, Ok(old(bits)@.1), 2 * n) {
            Ok(p) => r is Ok && final(bits)@.1 == p && ({
                let (pp, lp) = r->Ok_0;
                &&& pp@.len() == n && lp@.len() == n
                &&& forall|i: int| 0 <= i < n ==> #[trigger] pp@[i] == (msb(old(bits)@.0, old(bits)@.1 + 2 * i, 1) == 1)
                &&& forall|i: int| 0 <= i < n ==> #[trigger] lp@[i] == (msb(old(bits)@.0, old(bits)@.1 + 2 * i + 1, 1) == 1)
            }),
            Err(e) => outcome(r) == Err::<(Vec<bool>, Vec<bool>), Failure>(e),
        },
{
    let ghost d = bits@.0;
    let ghost p0 = bits@.1;
    let mut profile_present: Vec<bool> = Vec::new();
    let mut level_present: Vec<bool> = Vec::new();
    let mut index: usize = 0;
    while index < n
        invariant
            bits@.0 == d,
            d == old(bits)@.0,
            p0 == old(bits)@.1,
            0 <= p0,
            index <= n <= 6,
            bits@.1 == p0 + 2 * index,
            0 <= bits@.1 <= d.len() * 8,
            profile_present@.len() == index,
            level_present@.len() == index,
            forall|i: int| 0 <= i < index ==> #[trigger] profile_present@[i] == (msb(d, p0 + 2 * i, 1) == 1),
            forall|i: int| 0 <= i < index ==> #[trigger] level_present@[i] == (msb(d, p0 + 2 * i + 1, 1) == 1),
        decreases n - index,
    {
        let pp = match read_bool(bits) { Ok(v) => v, Err(e) => return Err(e) };
        let lp = match read_bool(bits) { Ok(v) => v, Err(e) => return Err(e) };
        profile_present.push(pp);
        level_present.push(lp);
        index = index + 1;
    }
    Ok((profile_present, level_present))
}

/// Skips the reserved bits after the sub-layer flags, `2 * (8 - n)` of them.
fn skip_reserved(bits: &mut BitReader, n: usize) -> (r: Result<()>)
    requires
        0 <= old(bits)@.1 <= old(bits)@.0.len() * 8,
        0 < n <= 8,
    ensures
        final(bits)@.0 == old(bits)@.0,
        0 <= final(bits)@.1 <= final(bits)@.0.len() * 8,
        match skip_flags(old(bits)@.0, Ok(old(bits)@.1), 2 * (8 - n)) {
            Ok(p) => r is Ok && final(bits)@.1 == p,
            Err(e) => outcome(r) == Err::<(), Failure>(e),
        },
{
    let ghost d = bits@.0;
    let ghost p0 = bits@.1;
    let mut k: usize = n;
    while k < 8
        invariant
            bits@.0 == d,
            d == old(bits)@.0,
            p0 == old(bits)@.1,
            0 <= p0,
            0 < n <= k <= 8,
            bits@.1 == p0 + 2 * (k - n),
            0 <= bits@.1 <= d.len() * 8,
        decreases 8 - k,
    {
        match skip_bits(bits, 2) { Ok(()) => {}, Err(e) => return Err(e) }
        k = k + 1;
    }
    Ok(())
}

/// Skips the sub-layer profile and level fields that the flags announce.
fn skip_sublayers(bits: &mut BitReader, profile_present: &Vec<bool>, level_present: &Vec<bool>, n: usize,
    Ghost(flags): Ghost<int>) -> (r: Result<()>)
    requires
        0 <= old(bits)@.1 <= old(bits)@.0.len() * 8,
        n <= 6,
        profile_present@.len() == n,
        level_present@.len() == n,
        forall|i: int| 0 <= i < n ==> #[trigger] profile_present@[i] == (msb(old(bits)@.0, flags + 2 * i, 1) == 1),
        forall|i: int| 0 <= i < n ==> #[trigger] level_present@[i] == (msb(old(bits)@.0, flags + 2 * i + 1, 1) == 1),
    ensures
        final(bits)@.0 == old(bits)@.0,
        0 <= final(bits)@.1 <= final(bits)@.0.len() * 8,
        match sublayers(old(bits)@.0, Ok(old(bits)@.1), flags, 0, n as nat) {
            Ok(p) => r is Ok && final(bits)@.1 == p,
            Err(e) => outcome(r) == Err::<(), Failure>(e),
        },
{
    let ghost d = bits@.0;
    let ghost whole = sublayers(d, Ok(bits@.1), flags, 0, n as nat);
    let mut i: usize = 0;
    while i < n
        invariant
            bits@.0 == d,
            d == old(bits)@.0,
            i <= n <= 6,
            0 <= bits@.1 <= d.len() * 8,
            profile_present@.len() == n,
            level_present@.len() == n,
            forall|j: int| 0 <= j < n ==> #[trigger] profile_present@[j] == (msb(d, flags + 2 * j, 1) == 1),
            forall|j: int| 0 <= j < n ==> #[trigger] level_present@[j] == (msb(d, flags + 2 * j + 1, 1) == 1),
            whole == sublayers(d, Ok(bits@.1), flags, i as nat, n as nat),
            whole == sublayers(d, Ok(old(bits)@.1), flags, 0, n as nat),
        decreases n - i,
    {
        if profile_present[i] {
            match skip_bits(bits, 8) { Ok(()) => {}, Err(e) => return Err(e) }
            match skip_bits(bits, 32) { Ok(()) => {}, Err(e) => return Err(e) }
            match skip_bits(bits, 48) { Ok(()) => {}, Err(e) => return Err(e) }
        }
        if level_present[i] {
            match skip_bits(bits, 8) { Ok(()) => {}, Err(e) => return Err(e) }
        }
        i = i + 1;
    }
    Ok(())
}

/// Skips a profile-tier-level structure with `n` sub-layers beyond the first.
fn skip_profile_tier_level(bits: &mut BitReader, n: usize) -> (r: Result<()>)
    requires
        0 <= old(bits)@.1 <= old(bits)@.0.len() * 8,
        n <= 6,
    ensures
        final(bits)@.0 == old(bits)@.0,
        0 <= final(bits)@.1 <= final(bits)@.0.len() * 8,
        match spec_ptl(old(bits)@.0, old(bits)@.1, n as int) {
            Ok(p) => r is Ok && final(bits)@.1 == p,
            Err(e) => outcome(r) == Err::<(), Failure>(e),
        },
{
    proof {
        reveal(spec_ptl);
    }
    let ghost d = bits@.0;
    let ghost p0 = bits@.1;
    match skip_bits(bits, 8) { Ok(()) => {}, Err(e) => return Err(e) }
    match skip_bits(bits, 32) { Ok(()) => {}, Err(e) => return Err(e) }
    match skip_bits(bits, 48) { Ok(()) => {}, Err(e) => return Err(e) }
    match skip_bits(bits, 8) { Ok(()) => {}, Err(e) => return Err(e) }
    let (profile_present, level_present) = match read_sublayer_flags(bits, n) { Ok(v) => v, Err(e) => return Err(e) };
    if n > 0 {
        match skip_reserved(bits, n) { Ok(()) => {}, Err(e) => return Err(e) }
    }
    skip_sublayers(bits, &profile_present, &level_present, n, Ghost(p0 + 96))
}

/// Reads the conformance window.
fn read_window(bits: &mut BitReader) -> (r: Result<Cropping>)
    requires
        0 <= old(bits)@.1 <= old(bits)@.0.len() * 8,
    ensures
        final(bits)@.0 == old(bits)@.0,
        0 <= final(bits)@.1 <= final(bits)@.0.len() * 8,
        match window(old(bits)@.0, old(bits)@.1) {
            Ok((c, p)) => r == Ok::<Cropping, RmpegError>(c) && final(bits)@.1 == p,
            Err(e) => outcome(r) == Err::<Cropping, Failure>(e),
        },
{
    if !match read_bool(bits) { Ok(v) => v, Err(e) => return Err(e) } {
        return Ok(Cropping { left: 0, right: 0, top: 0, bottom: 0 });
    }
    let left = match read_ue(bits, "HEVC") { Ok(v) => v, Err(e) => return Err(e) };
    let right = match read_ue(bits, "HEVC") { Ok(v) => v, Err(e) => return Err(e) };
    let top = match read_ue(bits, "HEVC") { Ok(v) => v, Err(e) => return Err(e) };
    let bottom = match read_ue(bits, "HEVC") { Ok(v) => v, Err(e) => return Err(e) };
    Ok(Cropping { left, right, top, bottom })
}

/// Reads the first fields of an SPS.
fn read_sps_core(bits: &mut BitReader) -> (r: Result<(usize, u32, bool, u32, u32, Cropping)>)
    requires
        old(bits)@.1 == 0,
    ensures
        final(bits)@.0 == old(bits)@.0,
        0 <= final(bits)@.1 <= final(bits)@.0.len() * 8,
        match sps_core(old(bits)@.0) {
            Ok((n, cfi, sep, w, h, crop, p)) => r == Ok::<(usize, u32, bool, u32, u32, Cropping), RmpegError>((n as usize,
                cfi as u32, sep, w as u32, h as u32, crop)) && final(bits)@.1 == p && 0 <= n <= 6 && 0 <= cfi <= 3
                && 0 <= w < u32::MAX && 0 <= h < u32::MAX,
            Err(e) => outcome(r) == Err::<(usize, u32, bool, u32, u32, Cropping), Failure>(e),
        },
{
    proof {
        reveal(sps_core);
    }
    let ghost d = bits@.0;
    let _ = bits.fits(0);
    match read_bits(bits, 4) { Ok(_) => {}, Err(e) => return Err(e) }
    let ghost p1 = bits@.1;
    let n = match read_bits(bits, 3) { Ok(v) => v, Err(e) => return Err(e) };
    proof {
        crate::bits::lemma_msb_bound(d, p1, 3);
        reveal_with_fuel(crate::bits::two_pow, 4);
    }
    if n > 6 {
        return Err(invalid_data("invalid HEVC sub-layer count"));
    }
    match read_bool(bits) { Ok(_) => {}, Err(e) => return Err(e) }
    match skip_profile_tier_level(bits, n as usize) { Ok(()) => {}, Err(e) => return Err(e) }
    match read_ue(bits, "HEVC") { Ok(_) => {}, Err(e) => return Err(e) }
    let chroma_format_idc = match read_ue(bits, "HEVC") { Ok(v) => v, Err(e) => return Err(e) };
    if chroma_format_idc > 3 {
        return Err(RmpegError::InvalidData(with_number("invalid HEVC chroma_format_idc ", chroma_format_idc as u64)));
    }
    let separate = if chroma_format_idc == 3 {
        match read_bool(bits) { Ok(v) => v, Err(e) => return Err(e) }
    } else {
        false
    };
    let width = match read_ue(bits, "HEVC") { Ok(v) => v, Err(e) => return Err(e) };
    let height = match read_ue(bits, "HEVC") { Ok(v) => v, Err(e) => return Err(e) };
    let crop = match read_window(bits) { Ok(c) => c, Err(e) => return Err(e) };
    Ok((n as usize, chroma_format_idc, separate, width, height, crop))
}

/// Skips `count` groups of ordering fields and six more codes.
fn skip_ordering_fields(bits: &mut BitReader, count: usize) -> (r: Result<()>)
    requires
        0 <= old(bits)@.1 <= old(bits)@.0.len() * 8,
    ensures
        final(bits)@.0 == old(bits)@.0,
        0 <= final(bits)@.1 <= final(bits)@.0.len() * 8,
        match ordering_fields(old(bits)@.0, old(bits)@.1, count as nat) {
            Ok(p) => r is Ok && final(bits)@.1 == p,
            Err(e) => outcome(r) == Err::<(), Failure>(e),
        },
{
    let ghost d = bits@.0;
    let ghost whole = ue_triples(d, Ok(bits@.1), count as nat);
    let mut k: usize = 0;
    while k < count
        invariant
            bits@.0 == d,
            d == old(bits)@.0,
            k <= count,
            0 <= bits@.1 <= d.len() * 8,
            whole == ue_triples(d, Ok(bits@.1), (count - k) as nat),
            whole == ue_triples(d, Ok(old(bits)@.1), count as nat),
        decreases count - k,
    {
        match read_ue(bits, "HEVC") { Ok(_) => {}, Err(e) => return Err(e) }
        match read_ue(bits, "HEVC") { Ok(_) => {}, Err(e) => return Err(e) }
        match read_ue(bits, "HEVC") { Ok(_) => {}, Err(e) => return Err(e) }
        k = k + 1;
    }
    match read_ue(bits, "HEVC") { Ok(_) => {}, Err(e) => return Err(e) }
    match read_ue(bits, "HEVC") { Ok(_) => {}, Err(e) => return Err(e) }
    match read_ue(bits, "HEVC") { Ok(_) => {}, Err(e) => return Err(e) }
    match read_ue(bits, "HEVC") { Ok(_) => {}, Err(e) => return Err(e) }
    match read_ue(bits, "HEVC") { Ok(_) => {}, Err(e) => return Err(e) }
    match read_ue(bits, "HEVC") { Ok(_) => {}, Err(e) => return Err(e) }
    Ok(())
}

/// Reads the bit depths, POC width and sub-layer ordering fields.
fn read_tail_depths(bits: &mut BitReader, n: usize) -> (r: Result<u32>)
    requires
        0 <= old(bits)@.1 <= old(bits)@.0.len() * 8,
        n <= 6,
    ensures
        final(bits)@.0 == old(bits)@.0,
        0 <= final(bits)@.1 <= final(bits)@.0.len() * 8,
        match tail_depths(old(bits)@.0, old(bits)@.1, n as int) {
            Ok((poc, p)) => r == Ok::<u32, RmpegError>(poc as u32) && final(bits)@.1 == p && 0 <= poc < u32::MAX,
            Err(e) => outcome(r) == Err::<u32, Failure>(e),
        },
{
    proof {
        reveal(tail_depths);
    }
    let luma = match read_ue(bits, "HEVC") { Ok(v) => v, Err(e) => return Err(e) };
    let chroma = match read_ue(bits, "HEVC") { Ok(v) => v, Err(e) => return Err(e) };
    if luma != chroma {
        return Err(invalid_data("HEVC luma/chroma bit depth mismatch"));
    }
    let poc = match read_ue(bits, "HEVC") { Ok(v) => v, Err(e) => return Err(e) };
    let all = match read_bool(bits) { Ok(v) => v, Err(e) => return Err(e) };
    let count: usize = if all { n + 1 } else { 1 };
    match skip_ordering_fields(bits, count) { Ok(()) => {}, Err(e) => return Err(e) }
    Ok(poc)
}

/// Skips `count` long-term reference pictures of `width`-bit POC values.
fn skip_long_term_refs(bits: &mut BitReader, count: u32, width: usize) -> (r: Result<()>)
    requires
        0 <= old(bits)@.1 <= old(bits)@.0.len() * 8,
    ensures
        final(bits)@.0 == old(bits)@.0,
        0 <= final(bits)@.1 <= final(bits)@.0.len() * 8,
        match long_term_refs(old(bits)@.0, Ok(old(bits)@.1), count as nat, width as int) {
            Ok(p) => r is Ok && final(bits)@.1 == p,
            Err(e) => outcome(r) == Err::<(), Failure>(e),
        },
{
    let ghost d = bits@.0;
    let ghost whole = long_term_refs(d, Ok(bits@.1), count as nat, width as int);
    let mut k: u32 = 0;
    while k < count
        invariant
            bits@.0 == d,
            d == old(bits)@.0,
            k <= count,
            0 <= bits@.1 <= d.len() * 8,
            whole == long_term_refs(d, Ok(bits@.1), (count - k) as nat, width as int),
            whole == long_term_refs(d, Ok(old(bits)@.1), count as nat, width as int),
        decreases count - k,
    {
        match skip_bits(bits, width) { Ok(()) => {}, Err(e) => return Err(e) }
        match read_bool(bits) { Ok(_) => {}, Err(e) => return Err(e) }
        k = k + 1;
    }
    Ok(())
}

/// Reads the fields from the scaling flags to the long-term references; `None` where
/// the SPS is accepted without reading further.
fn read_tail_refs(bits: &mut BitReader, poc: u32) -> (r: Result<Option<()>>)
    requires
        0 <= old(bits)@.1 <= old(bits)@.0.len() * 8,
    ensures
        final(bits)@.0 == old(bits)@.0,
        0 <= final(bits)@.1 <= final(bits)@.0.len() * 8,
        match tail_refs(old(bits)@.0, old(bits)@.1, poc as int) {
            Ok(None) => r == Ok::<Option<()>, RmpegError>(None),
            Ok(Some(p)) => r == Ok::<Option<()>, RmpegError>(Some(())) && final(bits)@.1 == p,
            Err(e) => outcome(r) == Err::<Option<()>, Failure>(e),
        },
{
    proof {
        reveal(tail_refs);
    }
    let ghost d = bits@.0;
    let scaling = match read_bool(bits) { Ok(v) => v, Err(e) => return Err(e) };
    if scaling {
        let data = match read_bool(bits) { Ok(v) => v, Err(e) => return Err(e) };
        if data {
            return Ok(None);
        }
    }
    match read_bool(bits) { Ok(_) => {}, Err(e) => return Err(e) }
    match read_bool(bits) { Ok(_) => {}, Err(e) => return Err(e) }
    let pcm = match read_bool(bits) { Ok(v) => v, Err(e) => return Err(e) };
    if pcm {
        match skip_bits(bits, 4) { Ok(()) => {}, Err(e) => return Err(e) }
        match skip_bits(bits, 4) { Ok(()) => {}, Err(e) => return Err(e) }
        match read_ue(bits, "HEVC") { Ok(_) => {}, Err(e) => return Err(e) }
        match read_ue(bits, "HEVC") { Ok(_) => {}, Err(e) => return Err(e) }
        match read_bool(bits) { Ok(_) => {}, Err(e) => return Err(e) }
    }
    let sets = match read_ue(bits, "HEVC") { Ok(v) => v, Err(e) => return Err(e) };
    if sets != 0 {
        return Ok(None);
    }
    let long_term = match read_bool(bits) { Ok(v) => v, Err(e) => return Err(e) };
    if long_term {
        let count = match read_ue(bits, "HEVC") { Ok(v) => v, Err(e) => return Err(e) };
        if poc > u32::MAX - 4 {
            return Err(invalid_data("HEVC POC width overflow"));
        }
        let width = (poc + 4) as usize;
        match skip_long_term_refs(bits, count, width) { Ok(()) => {}, Err(e) => return Err(e) }
    }
    Ok(Some(()))
}

/// Reads a flag bit, then skips `n` bits when it is set.
fn skip_flagged(bits: &mut BitReader, n: usize) -> (r: Result<()>)
    requires
        0 <= old(bits)@.1 <= old(bits)@.0.len() * 8,
    ensures
        final(bits)@.0 == old(bits)@.0,
        0 <= final(bits)@.1 <= final(bits)@.0.len() * 8,
        match flagged(old(bits)@.0, Ok(old(bits)@.1), n as int) {
            Ok(p) => r is Ok && final(bits)@.1 == p,
            Err(e) => outcome(r) == Err::<(), Failure>(e),
        },
{
    if match read_bool(bits) { Ok(v) => v, Err(e) => return Err(e) } {
        return skip_bits(bits, n);
    }
    Ok(())
}

/// Skips the VUI aspect ratio, overscan and video signal fields.
fn skip_vui_signal(bits: &mut BitReader) -> (r: Result<()>)
    requires
        0 <= old(bits)@.1 <= old(bits)@.0.len() * 8,
    ensures
        final(bits)@.0 == old(bits)@.0,
        0 <= final(bits)@.1 <= final(bits)@.0.len() * 8,
        match vui_signal(old(bits)@.0, old(bits)@.1) {
            Ok(p) => r is Ok && final(bits)@.1 == p,
            Err(e) => outcome(r) == Err::<(), Failure>(e),
        },
{
    proof {
        reveal(vui_signal);
    }
    if match read_bool(bits) { Ok(v) => v, Err(e) => return Err(e) } {
        let idc = match read_bits(bits, 8) { Ok(v) => v, Err(e) => return Err(e) };
        if idc == 255 {
            match skip_bits(bits, 16) { Ok(()) => {}, Err(e) => return Err(e) }
            match skip_bits(bits, 16) { Ok(()) => {}, Err(e) => return Err(e) }
        }
    }
    match skip_flagged(bits, 1) { Ok(()) => {}, Err(e) => return Err(e) }
    if match read_bool(bits) { Ok(v) => v, Err(e) => return Err(e) } {
        match skip_bits(bits, 3) { Ok(()) => {}, Err(e) => return Err(e) }
        match read_bool(bits) { Ok(_) => {}, Err(e) => return Err(e) }
        match skip_flagged(bits, 24) { Ok(()) => {}, Err(e) => return Err(e) }
    }
    Ok(())
}

/// Skips the VUI fields from the aspect ratio to the default display window.
fn skip_vui_display(bits: &mut BitReader) -> (r: Result<()>)
    requires
        0 <= old(bits)@.1 <= old(bits)@.0.len() * 8,
    ensures
        final(bits)@.0 == old(bits)@.0,
        0 <= final(bits)@.1 <= final(bits)@.0.len() * 8,
        match vui_display(old(bits)@.0, old(bits)@.1) {
            Ok(p) => r is Ok && final(bits)@.1 == p,
            Err(e) => outcome(r) == Err::<(), Failure>(e),
        },
{
    proof {
        reveal(vui_display);
    }
    match skip_vui_signal(bits) { Ok(()) => {}, Err(e) => return Err(e) }
    if match read_bool(bits) { Ok(v) => v, Err(e) => return Err(e) } {
        match read_ue(bits, "HEVC") { Ok(_) => {}, Err(e) => return Err(e) }
        match read_ue(bits, "HEVC") { Ok(_) => {}, Err(e) => return Err(e) }
    }
    match read_bool(bits) { Ok(_) => {}, Err(e) => return Err(e) }
    match read_bool(bits) { Ok(_) => {}, Err(e) => return Err(e) }
    match read_bool(bits) { Ok(_) => {}, Err(e) => return Err(e) }
    if match read_bool(bits) { Ok(v) => v, Err(e) => return Err(e) } {
        match read_ue(bits, "HEVC") { Ok(_) => {}, Err(e) => return Err(e) }
        match read_ue(bits, "HEVC") { Ok(_) => {}, Err(e) => return Err(e) }
        match read_ue(bits, "HEVC") { Ok(_) => {}, Err(e) => return Err(e) }
        match read_ue(bits, "HEVC") { Ok(_) => {}, Err(e) => return Err(e) }
    }
    Ok(())
}

/// Skips the VUI timing and bitstream restriction fields; `false` where a set HRD flag
/// under timing info ends the SPS's reading.
fn skip_vui_timing(bits: &mut BitReader) -> (r: Result<bool>)
    requires
        0 <= old(bits)@.1 <= old(bits)@.0.len() * 8,
    ensures
        final(bits)@.0 == old(bits)@.0,
        0 <= final(bits)@.1 <= final(bits)@.0.len() * 8,
        match vui_timing(old(bits)@.0, old(bits)@.1) {
            Ok((go_on, p)) => r == Ok::<bool, RmpegError>(go_on) && final(bits)@.1 == p,
            Err(e) => outcome(r) == Err::<bool, Failure>(e),
        },
{
    proof {
        reveal(vui_timing);
    }
    if match read_bool(bits) { Ok(v) => v, Err(e) => return Err(e) } {
        match skip_bits(bits, 32) { Ok(()) => {}, Err(e) => return Err(e) }
        match skip_bits(bits, 32) { Ok(()) => {}, Err(e) => return Err(e) }
        if match read_bool(bits) { Ok(v) => v, Err(e) => return Err(e) } {
            match read_ue(bits, "HEVC") { Ok(_) => {}, Err(e) => return Err(e) }
        }
        if match read_bool(bits) { Ok(v) => v, Err(e) => return Err(e) } {
            return Ok(false);
        }
    }
    if match read_bool(bits) { Ok(v) => v, Err(e) => return Err(e) } {
        match read_bool(bits) { Ok(_) => {}, Err(e) => return Err(e) }
        match read_bool(bits) { Ok(_) => {}, Err(e) => return Err(e) }
        match read_bool(bits) { Ok(_) => {}, Err(e) => return Err(e) }
        match read_ue(bits, "HEVC") { Ok(_) => {}, Err(e) => return Err(e) }
        match read_ue(bits, "HEVC") { Ok(_) => {}, Err(e) => return Err(e) }
        match read_ue(bits, "HEVC") { Ok(_) => {}, Err(e) => return Err(e) }
        match read_ue(bits, "HEVC") { Ok(_) => {}, Err(e) => return Err(e) }
        match read_ue(bits, "HEVC") { Ok(_) => {}, Err(e) => return Err(e) }
    }
    Ok(true)
}

/// Skips the VUI parameters; `false` where a set HRD flag under timing info ends the
/// SPS's reading.
fn skip_vui_parameters(bits: &mut BitReader) -> (r: Result<bool>)
    requires
        0 <= old(bits)@.1 <= old(bits)@.0.len() * 8,
    ensures
        final(bits)@.0 == old(bits)@.0,
        0 <= final(bits)@.1 <= final(bits)@.0.len() * 8,
        match spec_vui(old(bits)@.0, old(bits)@.1) {
            Ok((go_on, p)) => r == Ok::<bool, RmpegError>(go_on) && final(bits)@.1 == p,
            Err(e) => outcome(r) == Err::<bool, Failure>(e),
        },
{
    match skip_vui_display(bits) { Ok(()) => {}, Err(e) => return Err(e) }
    skip_vui_timing(bits)
}

/// Reads the last fields of an SPS: two flags, the VUI parameters and the extension
/// flags.
fn read_tail_end(bits: &mut BitReader) -> (r: Result<()>)
    requires
        0 <= old(bits)@.1 <= old(bits)@.0.len() * 8,
    ensures
        outcome(r) == tail_end(old(bits)@.0, old(bits)@.1),
{
    proof {
        reveal(tail_end);
    }
    match read_bool(bits) { Ok(_) => {}, Err(e) => return Err(e) }
    match read_bool(bits) { Ok(_) => {}, Err(e) => return Err(e) }
    if match read_bool(bits) { Ok(v) => v, Err(e) => return Err(e) } {
        if !match skip_vui_parameters(bits) { Ok(v) => v, Err(e) => return Err(e) } {
            return Ok(());
        }
    }
    if match read_bool(bits) { Ok(v) => v, Err(e) => return Err(e) } {
        let flags = match read_bits(bits, 4) { Ok(v) => v, Err(e) => return Err(e) };
        let more = match read_bits(bits, 4) { Ok(v) => v, Err(e) => return Err(e) };
        if (flags != 0 || more != 0) && bits.rest_is_stop_bit_then_zeros() {
            return Err(invalid_data("HEVC SPS extension has no payload"));
        }
    }
    Ok(())
}

/// Whether the fields after the conformance window read.
fn validate_sps_tail(bits: &mut BitReader, n: usize) -> (r: Result<()>)
    requires
        0 <= old(bits)@.1 <= old(bits)@.0.len() * 8,
        n <= 6,
    ensures
        outcome(r) == spec_tail(old(bits)@.0, old(bits)@.1, n as int),
{
    let poc = match read_tail_depths(bits, n) { Ok(v) => v, Err(e) => return Err(e) };
    match read_tail_refs(bits, poc) {
        Ok(None) => return Ok(()),
        Ok(Some(())) => {},
        Err(e) => return Err(e),
    }
    read_tail_end(bits)
}

/// The size from the coded size and the conformance window.
fn dimensions_from_sps(width: u32, height: u32, chroma_format_idc: u32, separate: bool, crop: Cropping)
    -> (r: Result<Dimensions>)
    ensures
        outcome(r) == spec_dimensions(width as int, height as int, chroma_format_idc as int, separate, crop),
{
    proof {
        reveal(spec_dimensions);
    }
    let (unit_x, unit_y) = crop_units(chroma_format_idc, separate);
    let crop_w = match crop.left.checked_add(crop.right) {
        Some(v) => match v.checked_mul(unit_x) { Some(v2) => v2, None => return Err(invalid_data("HEVC crop width overflow")) },
        None => return Err(invalid_data("HEVC crop width overflow")),
    };
    let crop_h = match crop.top.checked_add(crop.bottom) {
        Some(v) => match v.checked_mul(unit_y) { Some(v2) => v2, None => return Err(invalid_data("HEVC crop height overflow")) },
        None => return Err(invalid_data("HEVC crop height overflow")),
    };
    if width < crop_w {
        return Err(invalid_data("HEVC crop exceeds width"));
    }
    if height < crop_h {
        return Err(invalid_data("HEVC crop exceeds height"));
    }
    let w = width - crop_w;
    let h = height - crop_h;
    if w == 0 || h == 0 {
        return Err(invalid_data("HEVC dimensions must be nonzero"));
    }
    Ok(Dimensions { width: w, height: h })
}

/// The crop units of a chroma format.
fn crop_units(chroma_format_idc: u32, separate: bool) -> (r: (u32, u32))
    ensures
        r.0 == (if chroma_format_idc == 0 || separate { 1u32 } else if chroma_format_idc == 1 || chroma_format_idc == 2 { 2u32 } else { 1u32 }),
        r.1 == (if chroma_format_idc == 0 || separate { 1u32 } else if chroma_format_idc == 1 { 2u32 } else { 1u32 }),
{
    if chroma_format_idc == 0 || separate {
        return (1, 1);
    }
    if chroma_format_idc == 1 { (2, 2) } else if chroma_format_idc == 2 { (2, 1) } else { (1, 1) }
}

/// Reads an SPS NAL payload (after its two header bytes).
pub fn parse_sps(nal_payload: &[u8]) -> (r: Result<SpsMetadata>)
    ensures
        outcome(r) == spec_sps(spec_rbsp(nal_payload@)),
{
    proof {
        reveal(spec_sps);
    }
    let rbsp = rbsp_from_ebsp(nal_payload);
    let mut bits = BitReader::new(rbsp.as_slice());
    let (n, chroma_format_idc, separate, width, height, crop) = match read_sps_core(&mut bits) {
        Ok(v) => v,
        Err(e) => return Err(e),
    };
    let dimensions = match dimensions_from_sps(width, height, chroma_format_idc, separate, crop) {
        Ok(d) => d,
        Err(e) => return Err(e),
    };
    let usable_dimensions = validate_sps_tail(&mut bits, n).is_ok();
    Ok(SpsMetadata { dimensions, usable_dimensions })
}

/// Probes an HEVC Annex B stream by its first SPS.
pub fn parse_hevc_annex_b(bytes: &[u8]) -> (r: Result<ProbeDocument>)
    ensures
        probe_outcome(r) == spec_parse_hevc_annex_b(bytes@),
{
    let mut units = AnnexBNalUnits::new(bytes);
    loop
        invariant
            units@.0 == bytes@,
            0 <= units@.1,
            hevc_scan(bytes@, 0) == hevc_scan(bytes@, units@.1),
        decreases bytes@.len() - units@.1,
    {
        let ghost pos = units@.1;
        proof {
            lemma_next_nal_advances(bytes@, pos);
        }
        let nal = match units.next_unit() {
            Some(n) => n,
            None => return Err(invalid_data("missing HEVC SPS")),
        };
        if nal_type(nal) == Some(33u8) {
            let ghost found = spec_next_nal(bytes@, pos)->0;
            assert(nal@.subrange(2, nal@.len() as int) =~= bytes@.subrange(found.0 + 2, found.1));
            let metadata = match parse_sps(&nal[2..nal.len()]) { Ok(m) => m, Err(e) => return Err(e) };
            let dims = metadata.visible_dimensions();
            return Ok(ProbeDocument::single("hevc", StreamMetadata::video(0, "hevc", dims.width, dims.height,
                Some(zero_seconds()), None)));
        }
    }
}

/// Whether `bytes` looks like an HEVC Annex B stream.
pub fn looks_like_hevc_annex_b(bytes: &[u8]) -> (r: bool)
    ensures
        r == spec_looks_like_hevc(bytes@),
{
    match find_start_code(bytes, 0) {
        None => return false,
        Some((p, _)) => if p > 64 {
            return false;
        },
    }
    let mut units = AnnexBNalUnits::new(bytes);
    let mut index: usize = 0;
    loop
        invariant
            units@.0 == bytes@,
            0 <= units@.1,
            index < 16,
            spec_looks_like_hevc(bytes@) == hevc_looks_scan(bytes@, units@.1, index as nat),
        decreases 16 - index,
    {
        let ghost pos = units@.1;
        proof {
            lemma_next_nal_advances(bytes@, pos);
        }
        let nal = match units.next_unit() {
            Some(n) => n,
            None => return false,
        };
        let t = match nal_type(nal) {
            Some(t) => t,
            None => return false,
        };
        if t == 33 {
            let ghost found = spec_next_nal(bytes@, pos)->0;
            assert(nal@.subrange(2, nal@.len() as int) =~= bytes@.subrange(found.0 + 2, found.1));
            return parse_sps(&nal[2..nal.len()]).is_ok();
        }
        if !(32 <= t && t <= 40) || index >= 15 {
            return false;
        }
        index = index + 1;
    }
}

} // verus!
