use vstd::prelude::*;
use crate::bytes::{wide_mul, le16, le32, le64, tag_at, u16_le, u32_le, u64_le};
use crate::error::{eof, failure, invalid_data, outcome, unexpected_eof, unsupported, Failure, Result, RmpegError};
use crate::bytes::append_bytes;
use crate::codec::digest::{listing_outcome, single_frame_listing, single_listing};
use crate::codec::raster::concat_rows;
use crate::metadata::AudioFrameHash;
use crate::codec::bmp::min_int;

use crate::error::{join3, lossy_text, with_number};

verus! {

/// A channel reordering of a DXT5 image whose channels were swizzled for storage.
#[derive(Clone, Copy, PartialEq, Eq, Structural)]
pub enum DdsSwizzle {
    Rbxg,
    Rgxb,
    Rxbg,
    Rxgb,
    Xgbr,
    Xgxr,
    Xrbg,
}

/// What is done to each decoded DXT5 block.
#[derive(Clone, Copy, PartialEq, Eq, Structural)]
pub enum DdsBc3Transform {
    Plain,
    Aexp,
    NormalAg,
    Swizzle(DdsSwizzle),
    Ycocg { scaled: bool },
}

/// How the stored data becomes the output frame.
#[derive(Clone, Copy, PartialEq, Eq, Structural)]
pub enum DdsPostprocess {
    Raw,
    Palette { palette_offset: usize },
    Aexp,
    Ycocg,
    Bc1 { normal_map: bool },
    Bc2 { premultiplied: bool },
    Bc3 { premultiplied: bool, transform: DdsBc3Transform },
    Bc4 { signed: bool },
    Bc5 { signed: bool, swap_xy: bool },
}

/// Where a DDS image's base level lies and how to decode it.
pub struct DdsHeader {
    pub frame_offset: usize,
    pub frame_size: usize,
    pub width: usize,
    pub height: usize,
    pub postprocess: DdsPostprocess,
}

/// `w * h * bpp` bytes, if that fits.
pub open spec fn dds_packed_spec(w: int, h: int, bpp: int) -> Option<int> {
    if w * h > usize::MAX || w * h * bpp > usize::MAX { None } else { Some(w * h * bpp) }
}

/// The number of 4-pixel blocks covering `v` pixels, if `v + 3` fits.
pub open spec fn dds_blocks_spec(v: int) -> Option<int> {
    if v + 3 > usize::MAX { None } else { Some((v + 3) / 4) }
}

/// The size of the block data for `bb` bytes per block, if it fits.
pub open spec fn dds_block_data_spec(w: int, h: int, bb: int) -> Option<int> {
    match (dds_blocks_spec(w), dds_blocks_spec(h)) {
        (Some(bw), Some(bh)) => if bw * bh > usize::MAX || bw * bh * bb > usize::MAX { None } else { Some(bw * bh * bb) },
        _ => None,
    }
}

/// The four pixel-format masks.
pub open spec fn dds_masks(b: Seq<u8>) -> (int, int, int, int) {
    (u32_le(b, 92), u32_le(b, 96), u32_le(b, 100), u32_le(b, 104))
}

/// Whether the pixel format is 8-bit palette indexes.
pub open spec fn dds_is_palette(flags: u32, fourcc: Seq<u8>, bpp: int, masks: (int, int, int, int)) -> bool {
    ||| (flags & 0x20u32 != 0 && flags & 4u32 == 0 && bpp == 8 && masks == (0int, 0int, 0int, 0int))
    ||| (flags & 4u32 != 0 && fourcc == seq![0x50u8, 0x38, 0x20, 0x20] && bpp == 0 && masks == (0int, 0int, 0int, 0int))
}

/// The BGRA formats tagged "AEXP" or "YCG1" whose rows are exactly `4 * width` bytes.
pub open spec fn dds_special(w: int, h: int, pitch: int, flags: u32, bpp: int, masks: (int, int, int, int), tag: Seq<u8>)
    -> core::result::Result<Option<(int, int, DdsPostprocess)>, Failure>
{
    if flags != 0x41u32 || bpp != 32 || masks != (0xff0000int, 0xff00int, 0xffint, 0xff000000int) {
        Ok(None)
    } else if w * 4 > u32::MAX {
        Err(Failure::InvalidData)
    } else if pitch != w * 4 {
        Ok(None)
    } else {
        let post = if tag == seq![0x41u8, 0x45, 0x58, 0x50] { Some(DdsPostprocess::Aexp) } else if tag == seq![0x59u8, 0x43, 0x47, 0x31] { Some(DdsPostprocess::Ycocg) } else { None };
        match post {
            None => Ok(None),
            Some(p) => match dds_packed_spec(w, h, 4) {
                None => Err(Failure::InvalidData),
                Some(size) => Ok(Some((128int, size, p))),
            },
        }
    }
}

/// A block-compressed format: its data offset, block size and decoding, when the
/// header names one.
pub open spec fn dds_block_kind(b: Seq<u8>, flags: u32, fourcc: Seq<u8>, bpp: int, tag: Seq<u8>) -> Option<(int, int, DdsPostprocess)> {
    let zero_tag = tag == seq![0u8, 0, 0, 0];
    let bits_tag = b.subrange(88, 92);
    if flags == 4u32 && bpp == 0 && zero_tag && fourcc == seq![0x44u8, 0x58, 0x54, 0x31] {
        Some((128int, 8int, DdsPostprocess::Bc1 { normal_map: false }))
    } else if flags == 4u32 && bpp == 0 && zero_tag && fourcc == seq![0x44u8, 0x58, 0x54, 0x32] {
        Some((128int, 16int, DdsPostprocess::Bc2 { premultiplied: true }))
    } else if flags == 4u32 && bpp == 0 && zero_tag && fourcc == seq![0x44u8, 0x58, 0x54, 0x33] {
        Some((128int, 16int, DdsPostprocess::Bc2 { premultiplied: false }))
    } else if flags == 4u32 && bpp == 0 && zero_tag && fourcc == seq![0x44u8, 0x58, 0x54, 0x34] {
        Some((128int, 16int, DdsPostprocess::Bc3 { premultiplied: true, transform: DdsBc3Transform::Plain }))
    } else if flags == 4u32 && bpp == 0 && zero_tag && fourcc == seq![0x44u8, 0x58, 0x54, 0x35] {
        Some((128int, 16int, DdsPostprocess::Bc3 { premultiplied: false, transform: DdsBc3Transform::Plain }))
    } else if flags == 4u32 && bpp == 0 && zero_tag && fourcc == seq![0x41u8, 0x54, 0x49, 0x31] {
        Some((128int, 8int, DdsPostprocess::Bc4 { signed: false }))
    } else if flags == 4u32 && bpp == 0 && zero_tag && fourcc == seq![0x42u8, 0x43, 0x34, 0x53] {
        Some((128int, 8int, DdsPostprocess::Bc4 { signed: true }))
    } else if flags == 4u32 && bpp == 0 && zero_tag && fourcc == seq![0x41u8, 0x54, 0x49, 0x32] {
        Some((128int, 16int, DdsPostprocess::Bc5 { signed: false, swap_xy: true }))
    } else if flags == 4u32 && bpp == 0 && zero_tag && fourcc == seq![0x42u8, 0x43, 0x35, 0x53] {
        Some((128int, 16int, DdsPostprocess::Bc5 { signed: true, swap_xy: false }))
    } else if flags == 0x8000_0004u32 && bpp == 0 && zero_tag && fourcc == seq![0x44u8, 0x58, 0x54, 0x31] {
        Some((128int, 8int, DdsPostprocess::Bc1 { normal_map: true }))
    } else if flags == 0x8000_0004u32 && bpp == 0 && zero_tag && fourcc == seq![0x44u8, 0x58, 0x54, 0x35] {
        Some((128int, 16int, DdsPostprocess::Bc3 { premultiplied: false, transform: DdsBc3Transform::NormalAg }))
    } else if flags == 0x8000_0004u32 && bpp == 0 && zero_tag && fourcc == seq![0x52u8, 0x58, 0x47, 0x42] {
        Some((128int, 16int, DdsPostprocess::Bc3 { premultiplied: false, transform: DdsBc3Transform::Swizzle(DdsSwizzle::Rxgb) }))
    } else if flags == 4u32 && fourcc == seq![0x44u8, 0x58, 0x54, 0x35] {
        let t = if bpp == 0 {
            if tag == seq![0x41u8, 0x45, 0x58, 0x50] { Some(DdsBc3Transform::Aexp) }
            else if tag == seq![0x59u8, 0x43, 0x47, 0x31] { Some(DdsBc3Transform::Ycocg { scaled: false }) }
            else if tag == seq![0x59u8, 0x43, 0x47, 0x32] { Some(DdsBc3Transform::Ycocg { scaled: true }) }
            else { None }
        } else if zero_tag {
            if bits_tag == seq![0x41u8, 0x32, 0x44, 0x35] { Some(DdsBc3Transform::NormalAg) }
            else if bits_tag == seq![0x52u8, 0x42, 0x78, 0x47] { Some(DdsBc3Transform::Swizzle(DdsSwizzle::Rbxg)) }
            else if bits_tag == seq![0x52u8, 0x47, 0x78, 0x42] { Some(DdsBc3Transform::Swizzle(DdsSwizzle::Rgxb)) }
            else if bits_tag == seq![0x52u8, 0x78, 0x42, 0x47] { Some(DdsBc3Transform::Swizzle(DdsSwizzle::Rxbg)) }
            else if bits_tag == seq![0x78u8, 0x47, 0x42, 0x52] { Some(DdsBc3Transform::Swizzle(DdsSwizzle::Xgbr)) }
            else if bits_tag == seq![0x78u8, 0x47, 0x78, 0x52] { Some(DdsBc3Transform::Swizzle(DdsSwizzle::Xgxr)) }
            else if bits_tag == seq![0x78u8, 0x52, 0x42, 0x47] { Some(DdsBc3Transform::Swizzle(DdsSwizzle::Xrbg)) }
            else { None }
        } else {
            None
        };
        match t {
            Some(t) => Some((128int, 16int, DdsPostprocess::Bc3 { premultiplied: false, transform: t })),
            None => None,
        }
    } else if flags == 4u32 && fourcc == seq![0x41u8, 0x54, 0x49, 0x32] && bits_tag == seq![0x41u8, 0x32, 0x58, 0x59] && zero_tag {
        Some((128int, 16int, DdsPostprocess::Bc5 { signed: false, swap_xy: false }))
    } else {
        None
    }
}

/// A block-compressed frame: offset, data size and decoding; for a "DX10" header the
/// DXGI format after the header decides.
pub open spec fn dds_block_compressed(b: Seq<u8>, w: int, h: int, flags: u32, fourcc: Seq<u8>, bpp: int, tag: Seq<u8>)
    -> core::result::Result<Option<(int, int, DdsPostprocess)>, Failure>
{
    match dds_block_kind(b, flags, fourcc, bpp, tag) {
        Some((off, bb, post)) => match dds_block_data_spec(w, h, bb) {
            None => Err(Failure::InvalidData),
            Some(size) => Ok(Some((off, size, post))),
        },
        None => if fourcc != seq![0x44u8, 0x58, 0x31, 0x30] {
            Ok(None)
        } else if b.len() < 148 {
            Err(eof(148, b.len() as int))
        } else {
            let dxgi = u32_le(b, 128);
            let k = if dxgi == 71 { Some((8int, DdsPostprocess::Bc1 { normal_map: false })) }
                else if dxgi == 74 { Some((16int, DdsPostprocess::Bc2 { premultiplied: false })) }
                else if dxgi == 77 { Some((16int, DdsPostprocess::Bc3 { premultiplied: false, transform: DdsBc3Transform::Plain })) }
                else if dxgi == 80 { Some((8int, DdsPostprocess::Bc4 { signed: false })) }
                else if dxgi == 83 { Some((16int, DdsPostprocess::Bc5 { signed: false, swap_xy: false })) }
                else { None };
            match k {
                None => Ok(None),
                Some((bb, post)) => match dds_block_data_spec(w, h, bb) {
                    None => Err(Failure::InvalidData),
                    Some(size) => Ok(Some((148int, size, post))),
                },
            }
        },
    }
}

/// The packed size of an uncompressed format the decoder copies as stored.
pub open spec fn dds_direct(w: int, h: int, pitch: int, flags: u32, fourcc: Seq<u8>, bpp: int, masks: (int, int, int, int))
    -> core::result::Result<int, Failure>
{
    let packed = |n: int| match dds_packed_spec(w, h, n) {
        Some(s) => Ok::<int, Failure>(s),
        None => Err::<int, Failure>(Failure::InvalidData),
    };
    if flags & 4u32 != 0 {
        if fourcc == seq![0x59u8, 0x55, 0x59, 0x32] || fourcc == seq![0x55u8, 0x59, 0x56, 0x59] {
            packed(2)
        } else if fourcc == seq![0x47u8, 0x31, 0x20, 0x20] {
            if w + 7 > usize::MAX || ((w + 7) / 8) * h > usize::MAX { Err(Failure::InvalidData) } else { Ok(((w + 7) / 8) * h) }
        } else {
            Err(Failure::Unsupported)
        }
    } else if flags & 2u32 != 0 && bpp == 8 && masks == (0int, 0int, 0int, 0xffint) {
        packed(1)
    } else if flags & 0x20000u32 != 0 && bpp == 8 && masks == (0xffint, 0int, 0int, 0int) {
        packed(1)
    } else if flags & 0x20000u32 != 0 && flags & 1u32 != 0 && bpp == 16 && masks == (0xffint, 0int, 0int, 0xff00int) {
        packed(2)
    } else if flags & 0x40u32 != 0 && bpp == 16 && (masks == (0x7c00int, 0x3e0int, 0x1fint, 0int)
        || masks == (0x7c00int, 0x3e0int, 0x1fint, 0x8000int) || masks == (0xf800int, 0x7e0int, 0x1fint, 0int)) {
        packed(2)
    } else if flags & 0x40u32 != 0 && bpp == 24 && masks == (0xff0000int, 0xff00int, 0xffint, 0int) {
        packed(3)
    } else if flags & 0x40u32 != 0 && bpp == 32 && (masks == (0xff0000int, 0xff00int, 0xffint, 0int) || masks == (0xffint, 0xff00int, 0xff0000int, 0int)) {
        packed(4)
    } else if flags & 0x40u32 != 0 && bpp == 32 && masks == (0xff0000int, 0xff00int, 0xffint, 0xff000000int) {
        if w * 4 > u32::MAX || w * 4 * h > u32::MAX {
            Err(Failure::InvalidData)
        } else if pitch == 0 || pitch == w * 4 * h {
            packed(4)
        } else {
            Err(Failure::Unsupported)
        }
    } else {
        Err(Failure::Unsupported)
    }
}

/// Where the base level of the DDS file `b` lies and how to decode it.
pub open spec fn spec_dds_header(b: Seq<u8>) -> core::result::Result<DdsHeader, Failure> {
    let len = b.len() as int;
    if len < 128 {
        Err(eof(128, len))
    } else if b.subrange(0, 4) != seq![0x44u8, 0x44, 0x53, 0x20] {
        Err(Failure::InvalidData)
    } else if u32_le(b, 4) != 124 {
        Err(Failure::InvalidData)
    } else {
        let h = u32_le(b, 12);
        let w = u32_le(b, 16);
        let pitch = u32_le(b, 20);
        let flags = u32_le(b, 80) as u32;
        let fourcc = b.subrange(84, 88);
        let bpp = u32_le(b, 88);
        let masks = dds_masks(b);
        let tag = b.subrange(44, 48);
        if w == 0 || h == 0 {
            Err(Failure::InvalidData)
        } else if u32_le(b, 76) != 32 {
            Err(Failure::InvalidData)
        } else {
            let sel: core::result::Result<(int, int, DdsPostprocess), Failure> = if dds_is_palette(flags, fourcc, bpp, masks) {
                match dds_packed_spec(w, h, 1) {
                    None => Err(Failure::InvalidData),
                    Some(s) => Ok((1152int, s, DdsPostprocess::Palette { palette_offset: 128 })),
                }
            } else {
                match dds_special(w, h, pitch, flags, bpp, masks, tag) {
                    Err(e) => Err(e),
                    Ok(Some(t)) => Ok(t),
                    Ok(None) => match dds_block_compressed(b, w, h, flags, fourcc, bpp, tag) {
                        Err(e) => Err(e),
                        Ok(Some(t)) => Ok(t),
                        Ok(None) => match dds_direct(w, h, pitch, flags, fourcc, bpp, masks) {
                            Err(e) => Err(e),
                            Ok(size) => Ok((128int, size, DdsPostprocess::Raw)),
                        },
                    },
                }
            };
            match sel {
                Err(e) => Err(e),
                Ok((off, size, post)) => if off + size > usize::MAX {
                    Err(Failure::InvalidData)
                } else if off + size > len {
                    Err(eof(off + size, len))
                } else {
                    Ok(DdsHeader { frame_offset: off as usize, frame_size: size as usize, width: w as usize, height: h as usize, postprocess: post })
                },
            }
        }
    }
}

/// What every header that `dds_header` accepts satisfies for an input of `len` bytes.
pub open spec fn dds_wf(h: DdsHeader, len: int) -> bool {
    &&& h.frame_offset + h.frame_size <= len
    &&& 1 <= h.width <= u32::MAX
    &&& 1 <= h.height <= u32::MAX
    &&& (is_block_kind(h.postprocess) ==> h.frame_size == ((h.width + 3) / 4) * ((h.height + 3) / 4) * block_bytes_of(h.postprocess))
    &&& (h.postprocess is Palette ==> h.postprocess == (DdsPostprocess::Palette { palette_offset: 128 }) && h.frame_offset == 1152)
}

/// A located frame with its sizes widened to integers.
pub open spec fn widen3(r: Option<(usize, usize, DdsPostprocess)>) -> Option<(int, int, DdsPostprocess)> {
    match r {
        Some((a, b, p)) => Some((a as int, b as int, p)),
        None => None,
    }
}

fn dds_packed_size(w: usize, h: usize, n: usize) -> (r: Option<usize>)
    requires
        1 <= n <= 4,
    ensures
        match r {
            Some(s) => dds_packed_spec(w as int, h as int, n as int) == Some(s as int),
            None => dds_packed_spec(w as int, h as int, n as int) is None,
        },
{
    let wh = wide_mul(w as u64, h as u64);
    if wh > usize::MAX as u128 {
        return None;
    }
    let p = wh as usize;
    if p > usize::MAX / n {
        assert(p * n > usize::MAX) by (nonlinear_arith)
            requires
                p > usize::MAX / n,
                n >= 1,
        ;
        return None;
    }
    assert(p * n <= usize::MAX) by (nonlinear_arith)
        requires
            p <= usize::MAX / n,
            n >= 1,
    ;
    Some(p * n)
}

fn dds_block_data_size(w: usize, h: usize, bb: usize) -> (r: Option<usize>)
    requires
        bb == 8 || bb == 16,
    ensures
        match r {
            Some(s) => dds_block_data_spec(w as int, h as int, bb as int) == Some(s as int),
            None => dds_block_data_spec(w as int, h as int, bb as int) is None,
        },
{
    if w > usize::MAX - 3 || h > usize::MAX - 3 {
        return None;
    }
    let bw = (w + 3) / 4;
    let bh = (h + 3) / 4;
    let n = wide_mul(bw as u64, bh as u64);
    if n > usize::MAX as u128 {
        return None;
    }
    let blocks = n as usize;
    if blocks > usize::MAX / bb {
        return None;
    }
    Some(blocks * bb)
}

/// Whether the four bytes of `bytes` at `p` are `t`.
fn tag4(bytes: &[u8], p: usize, t: &[u8]) -> (r: bool)
    requires
        p + 4 <= bytes@.len(),
        t@.len() == 4,
    ensures
        r == (bytes@.subrange(p as int, p + 4) == t@),
{
    tag_at(bytes, p, t)
}

fn dds_block_kind_exec(bytes: &[u8], flags: u32, bpp: u32) -> (r: Option<(usize, usize, DdsPostprocess)>)
    requires
        bytes@.len() >= 128,
        bpp == u32_le(bytes@, 88),
    ensures
        widen3(r) == dds_block_kind(bytes@, flags, bytes@.subrange(84, 88), bpp as int, bytes@.subrange(44, 48)),
        r matches Some((off, bb, post)) ==> is_block_kind(post) && off == 128 && bb == block_bytes_of(post),
{
    let zero_tag = tag4(bytes, 44, &[0x00u8, 0x00, 0x00, 0x00]);
    let plain = flags == 4 && bpp == 0 && zero_tag;
    let normal = flags == 0x8000_0004 && bpp == 0 && zero_tag;
    if plain && tag4(bytes, 84, &[0x44u8, 0x58, 0x54, 0x31]) {
        Some((128, 8, DdsPostprocess::Bc1 { normal_map: false }))
    } else if plain && tag4(bytes, 84, &[0x44u8, 0x58, 0x54, 0x32]) {
        Some((128, 16, DdsPostprocess::Bc2 { premultiplied: true }))
    } else if plain && tag4(bytes, 84, &[0x44u8, 0x58, 0x54, 0x33]) {
        Some((128, 16, DdsPostprocess::Bc2 { premultiplied: false }))
    } else if plain && tag4(bytes, 84, &[0x44u8, 0x58, 0x54, 0x34]) {
        Some((128, 16, DdsPostprocess::Bc3 { premultiplied: true, transform: DdsBc3Transform::Plain }))
    } else if plain && tag4(bytes, 84, &[0x44u8, 0x58, 0x54, 0x35]) {
        Some((128, 16, DdsPostprocess::Bc3 { premultiplied: false, transform: DdsBc3Transform::Plain }))
    } else if plain && tag4(bytes, 84, &[0x41u8, 0x54, 0x49, 0x31]) {
        Some((128, 8, DdsPostprocess::Bc4 { signed: false }))
    } else if plain && tag4(bytes, 84, &[0x42u8, 0x43, 0x34, 0x53]) {
        Some((128, 8, DdsPostprocess::Bc4 { signed: true }))
    } else if plain && tag4(bytes, 84, &[0x41u8, 0x54, 0x49, 0x32]) {
        Some((128, 16, DdsPostprocess::Bc5 { signed: false, swap_xy: true }))
    } else if plain && tag4(bytes, 84, &[0x42u8, 0x43, 0x35, 0x53]) {
        Some((128, 16, DdsPostprocess::Bc5 { signed: true, swap_xy: false }))
    } else if normal && tag4(bytes, 84, &[0x44u8, 0x58, 0x54, 0x31]) {
        Some((128, 8, DdsPostprocess::Bc1 { normal_map: true }))
    } else if normal && tag4(bytes, 84, &[0x44u8, 0x58, 0x54, 0x35]) {
        Some((128, 16, DdsPostprocess::Bc3 { premultiplied: false, transform: DdsBc3Transform::NormalAg }))
    } else if normal && tag4(bytes, 84, &[0x52u8, 0x58, 0x47, 0x42]) {
        Some((128, 16, DdsPostprocess::Bc3 { premultiplied: false, transform: DdsBc3Transform::Swizzle(DdsSwizzle::Rxgb) }))
    } else if flags == 4 && tag4(bytes, 84, &[0x44u8, 0x58, 0x54, 0x35]) {
        let t = if bpp == 0 {
            if tag4(bytes, 44, &[0x41u8, 0x45, 0x58, 0x50]) { Some(DdsBc3Transform::Aexp) }
            else if tag4(bytes, 44, &[0x59u8, 0x43, 0x47, 0x31]) { Some(DdsBc3Transform::Ycocg { scaled: false }) }
            else if tag4(bytes, 44, &[0x59u8, 0x43, 0x47, 0x32]) { Some(DdsBc3Transform::Ycocg { scaled: true }) }
            else { None }
        } else if zero_tag {
            if tag4(bytes, 88, &[0x41u8, 0x32, 0x44, 0x35]) { Some(DdsBc3Transform::NormalAg) }
            else if tag4(bytes, 88, &[0x52u8, 0x42, 0x78, 0x47]) { Some(DdsBc3Transform::Swizzle(DdsSwizzle::Rbxg)) }
            else if tag4(bytes, 88, &[0x52u8, 0x47, 0x78, 0x42]) { Some(DdsBc3Transform::Swizzle(DdsSwizzle::Rgxb)) }
            else if tag4(bytes, 88, &[0x52u8, 0x78, 0x42, 0x47]) { Some(DdsBc3Transform::Swizzle(DdsSwizzle::Rxbg)) }
            else if tag4(bytes, 88, &[0x78u8, 0x47, 0x42, 0x52]) { Some(DdsBc3Transform::Swizzle(DdsSwizzle::Xgbr)) }
            else if tag4(bytes, 88, &[0x78u8, 0x47, 0x78, 0x52]) { Some(DdsBc3Transform::Swizzle(DdsSwizzle::Xgxr)) }
            else if tag4(bytes, 88, &[0x78u8, 0x52, 0x42, 0x47]) { Some(DdsBc3Transform::Swizzle(DdsSwizzle::Xrbg)) }
            else { None }
        } else {
            None
        };
        match t {
            Some(t) => Some((128, 16, DdsPostprocess::Bc3 { premultiplied: false, transform: t })),
            None => None,
        }
    } else if flags == 4 && tag4(bytes, 84, &[0x41u8, 0x54, 0x49, 0x32]) && tag4(bytes, 88, &[0x41u8, 0x32, 0x58, 0x59]) && zero_tag {
        Some((128, 16, DdsPostprocess::Bc5 { signed: false, swap_xy: false }))
    } else {
        None
    }
}

fn dds_block_compressed_frame(bytes: &[u8], w: usize, h: usize, flags: u32, bpp: u32) -> (r: Result<Option<(usize, usize, DdsPostprocess)>>)
    requires
        bytes@.len() >= 128,
        bpp == u32_le(bytes@, 88),
    ensures
        match r {
            Ok(o) => dds_block_compressed(bytes@, w as int, h as int, flags, bytes@.subrange(84, 88), bpp as int, bytes@.subrange(44, 48)) == Ok::<Option<(int, int, DdsPostprocess)>, Failure>(widen3(o)),
            Err(e) => dds_block_compressed(bytes@, w as int, h as int, flags, bytes@.subrange(84, 88), bpp as int, bytes@.subrange(44, 48)) == Err::<Option<(int, int, DdsPostprocess)>, Failure>(failure(e)),
        },
        r matches Ok(Some((off, size, post))) ==> is_block_kind(post) && (off == 128 || off == 148)
            && size == ((w + 3) / 4) * ((h + 3) / 4) * block_bytes_of(post),
{
    match dds_block_kind_exec(bytes, flags, bpp) {
        Some((off, bb, post)) => {
            return match dds_block_data_size(w, h, bb) {
                None => Err(invalid_data("DDS block data size overflow")),
                Some(size) => Ok(Some((off, size, post))),
            };
        },
        None => {},
    }
    if !tag4(bytes, 84, &[0x44u8, 0x58, 0x31, 0x30]) {
        return Ok(None);
    }
    if bytes.len() < 148 {
        return Err(unexpected_eof(148, bytes.len()));
    }
    let dxgi = le32(bytes, 128);
    let (bb, post): (usize, DdsPostprocess) = if dxgi == 71 {
        (8, DdsPostprocess::Bc1 { normal_map: false })
    } else if dxgi == 74 {
        (16, DdsPostprocess::Bc2 { premultiplied: false })
    } else if dxgi == 77 {
        (16, DdsPostprocess::Bc3 { premultiplied: false, transform: DdsBc3Transform::Plain })
    } else if dxgi == 80 {
        (8, DdsPostprocess::Bc4 { signed: false })
    } else if dxgi == 83 {
        (16, DdsPostprocess::Bc5 { signed: false, swap_xy: false })
    } else {
        return Ok(None);
    };
    match dds_block_data_size(w, h, bb) {
        None => Err(invalid_data("DDS block data size overflow")),
        Some(size) => Ok(Some((148, size, post))),
    }
}

fn dds_direct_frame_size(bytes: &[u8], w: usize, h: usize, pitch: u32, flags: u32, bpp: u32, m: (u32, u32, u32, u32)) -> (r: Result<usize>)
    requires
        bytes@.len() >= 128,
        w <= u32::MAX,
        h <= u32::MAX,
        (m.0 as int, m.1 as int, m.2 as int, m.3 as int) == dds_masks(bytes@),
    ensures
        match r {
            Ok(s) => dds_direct(w as int, h as int, pitch as int, flags, bytes@.subrange(84, 88), bpp as int, dds_masks(bytes@)) == Ok::<int, Failure>(s as int),
            Err(e) => dds_direct(w as int, h as int, pitch as int, flags, bytes@.subrange(84, 88), bpp as int, dds_masks(bytes@)) == Err::<int, Failure>(failure(e)),
        },
{
    let packed = |n: usize| -> (r: Result<usize>)
        requires
            1 <= n <= 4,
        ensures
            match r {
                Ok(s) => dds_packed_spec(w as int, h as int, n as int) == Some(s as int),
                Err(e) => dds_packed_spec(w as int, h as int, n as int) is None && failure(e) == Failure::InvalidData,
            },
    {
        match dds_packed_size(w, h, n) {
            Some(s) => Ok(s),
            None => Err(invalid_data("DDS frame size overflow")),
        }
    };
    let (m0, m1, m2, m3) = m;
    if flags & 4 != 0 {
        if tag4(bytes, 84, &[0x59u8, 0x55, 0x59, 0x32]) || tag4(bytes, 84, &[0x55u8, 0x59, 0x56, 0x59]) {
            packed(2)
        } else if tag4(bytes, 84, &[0x47u8, 0x31, 0x20, 0x20]) {
            if w > usize::MAX - 7 {
                return Err(invalid_data("DDS monob row size overflow"));
            }
            let rb = (w + 7) / 8;
            let t = wide_mul(rb as u64, h as u64);
            if t > usize::MAX as u128 {
                return Err(invalid_data("DDS monob frame size overflow"));
            }
            Ok(t as usize)
        } else {
            Err(RmpegError::Unsupported(join3("unsupported DDS FOURCC ", lossy_text(&bytes[84..88]).as_str(), "")))
        }
    } else if flags & 2 != 0 && bpp == 8 && m0 == 0 && m1 == 0 && m2 == 0 && m3 == 0xff {
        packed(1)
    } else if flags & 0x20000 != 0 && bpp == 8 && m0 == 0xff && m1 == 0 && m2 == 0 && m3 == 0 {
        packed(1)
    } else if flags & 0x20000 != 0 && flags & 1 != 0 && bpp == 16 && m0 == 0xff && m1 == 0 && m2 == 0 && m3 == 0xff00 {
        packed(2)
    } else if flags & 0x40 != 0 && bpp == 16 && ((m0 == 0x7c00 && m1 == 0x3e0 && m2 == 0x1f && m3 == 0)
        || (m0 == 0x7c00 && m1 == 0x3e0 && m2 == 0x1f && m3 == 0x8000) || (m0 == 0xf800 && m1 == 0x7e0 && m2 == 0x1f && m3 == 0)) {
        packed(2)
    } else if flags & 0x40 != 0 && bpp == 24 && m0 == 0xff0000 && m1 == 0xff00 && m2 == 0xff && m3 == 0 {
        packed(3)
    } else if flags & 0x40 != 0 && bpp == 32 && ((m0 == 0xff0000 && m1 == 0xff00 && m2 == 0xff && m3 == 0)
        || (m0 == 0xff && m1 == 0xff00 && m2 == 0xff0000 && m3 == 0)) {
        packed(4)
    } else if flags & 0x40 != 0 && bpp == 32 && m0 == 0xff0000 && m1 == 0xff00 && m2 == 0xff && m3 == 0xff000000 {
        if w > 0x3fff_ffff {
            return Err(invalid_data("DDS row size overflow"));
        }
        let rb = (w * 4) as u64;
        let fb = wide_mul(rb, h as u64);
        if fb > u32::MAX as u128 {
            return Err(invalid_data("DDS frame size overflow"));
        }
        if pitch == 0 || pitch as u128 == fb {
            packed(4)
        } else {
            Err(unsupported("unsupported DDS pixel format"))
        }
    } else {
        Err(unsupported("unsupported DDS pixel format"))
    }
}

/// Reads and checks the header of the DDS file `bytes` and locates its base level.
pub fn dds_header(bytes: &[u8]) -> (r: Result<DdsHeader>)
    ensures
        outcome(r) == spec_dds_header(bytes@),
        r matches Ok(h) ==> dds_wf(h, bytes@.len() as int),
{
    let len = bytes.len();
    if len < 128 {
        return Err(unexpected_eof(128, len));
    }
    if !tag4(bytes, 0, &[0x44u8, 0x44, 0x53, 0x20]) {
        return Err(invalid_data("missing DDS signature"));
    }
    if le32(bytes, 4) != 124 {
        return Err(RmpegError::InvalidData(with_number("unsupported DDS header size ", le32(bytes, 4) as u64)));
    }
    let h = le32(bytes, 12) as usize;
    let w = le32(bytes, 16) as usize;
    if w == 0 || h == 0 {
        return Err(invalid_data("DDS dimensions must be nonzero"));
    }
    let pitch = le32(bytes, 20);
    if le32(bytes, 76) != 32 {
        return Err(RmpegError::InvalidData(with_number("unsupported DDS pixel format size ", le32(bytes, 76) as u64)));
    }
    let flags = le32(bytes, 80);
    let bpp = le32(bytes, 88);
    let m0 = le32(bytes, 92);
    let m1 = le32(bytes, 96);
    let m2 = le32(bytes, 100);
    let m3 = le32(bytes, 104);
    let zero_masks = m0 == 0 && m1 == 0 && m2 == 0 && m3 == 0;
    let is_palette = (flags & 0x20 != 0 && flags & 4 == 0 && bpp == 8 && zero_masks)
        || (flags & 4 != 0 && tag4(bytes, 84, &[0x50u8, 0x38, 0x20, 0x20]) && bpp == 0 && zero_masks);
    let (off, size, post): (usize, usize, DdsPostprocess) = if is_palette {
        match dds_packed_size(w, h, 1) {
            None => return Err(invalid_data("DDS frame size overflow")),
            Some(s) => (1152, s, DdsPostprocess::Palette { palette_offset: 128 }),
        }
    } else {
        let special = if flags == 0x41 && bpp == 32 && m0 == 0xff0000 && m1 == 0xff00 && m2 == 0xff && m3 == 0xff000000 {
            if w > 0x3fff_ffff {
                return Err(invalid_data("DDS row size overflow"));
            }
            if pitch as usize != w * 4 {
                None
            } else if tag4(bytes, 44, &[0x41u8, 0x45, 0x58, 0x50]) {
                Some(DdsPostprocess::Aexp)
            } else if tag4(bytes, 44, &[0x59u8, 0x43, 0x47, 0x31]) {
                Some(DdsPostprocess::Ycocg)
            } else {
                None
            }
        } else {
            None
        };
        match special {
            Some(p) => match dds_packed_size(w, h, 4) {
                None => return Err(invalid_data("DDS frame size overflow")),
                Some(s) => (128, s, p),
            },
            None => match dds_block_compressed_frame(bytes, w, h, flags, bpp) {
                Err(e) => return Err(e),
                Ok(Some(t)) => t,
                Ok(None) => match dds_direct_frame_size(bytes, w, h, pitch, flags, bpp, (m0, m1, m2, m3)) {
                    Err(e) => return Err(e),
                    Ok(s) => (128, s, DdsPostprocess::Raw),
                },
            },
        }
    };
    if off > usize::MAX - size {
        return Err(invalid_data("DDS frame range overflow"));
    }
    if off + size > len {
        return Err(unexpected_eof(off + size, len));
    }
    Ok(DdsHeader { frame_offset: off, frame_size: size, width: w, height: h, postprocess: post })
}

/// A 5-bit colour component widened to 8 bits: `(x * 526 + 32) / 64`, so 0 stays 0 and
/// 31 becomes 255.
pub open spec fn dds_expand5(x: int) -> int {
    (x * 526 + 32) / 64
}

/// A 6-bit colour component widened to 8 bits: `(x * 259 + 32) / 64`, so 0 stays 0 and
/// 63 becomes 255.
pub open spec fn dds_expand6(x: int) -> int {
    (x * 259 + 32) / 64
}

/// Channel `c` (red, green, blue) of the RGB565 colour `v`.
pub open spec fn rgb565_channel(v: int, c: int) -> int {
    if c == 0 { dds_expand5((v / 2048) % 32) } else if c == 1 { dds_expand6((v / 32) % 64) } else { dds_expand5(v % 32) }
}

/// Whether a colour block uses four opaque colours (else three and transparent black).
pub open spec fn bc_four_colors(allow_bc1_alpha: bool, c0: int, c1: int) -> bool {
    !allow_bc1_alpha || c0 > c1
}

/// Channel `c` (red, green, blue, alpha) of palette colour `k` of a colour block.
pub open spec fn bc_color(blk: Seq<u8>, allow_bc1_alpha: bool, k: int, c: int) -> int {
    let c0 = u16_le(blk, 0);
    let c1 = u16_le(blk, 2);
    let four = bc_four_colors(allow_bc1_alpha, c0, c1);
    if c == 3 {
        if k == 3 && !four { 0 } else { 255 }
    } else {
        let a = rgb565_channel(c0, c);
        let b = rgb565_channel(c1, c);
        if k == 0 { a } else if k == 1 { b } else if k == 2 {
            if four { (2 * a + b) / 3 } else { (a + b) / 2 }
        } else {
            if four { (a + 2 * b) / 3 } else { 0 }
        }
    }
}

/// The 2-bit colour index of pixel `p` of a colour block.
pub open spec fn bc_color_index(blk: Seq<u8>, p: int) -> int {
    (((u32_le(blk, 4) as u32) >> ((2 * p) as u32)) & 3u32) as int
}

/// Byte `c` of pixel `p` of a decoded colour block whose alphas are `alpha(p)`.
pub open spec fn bc_color_pixel(blk: Seq<u8>, allow_bc1_alpha: bool, alpha: spec_fn(int) -> int, p: int, c: int) -> int {
    let k = bc_color_index(blk, p);
    let c0 = u16_le(blk, 0);
    let c1 = u16_le(blk, 2);
    if c == 3 && (!allow_bc1_alpha || k != 3 || c0 > c1) { alpha(p) } else { bc_color(blk, allow_bc1_alpha, k, c) }
}

fn rgb565_exec(v: u16, c: u8) -> (r: u8)
    requires
        c < 3,
    ensures
        r == rgb565_channel(v as int, c as int),
{
    let x: u32 = if c == 0 { (v as u32 / 2048) % 32 } else if c == 1 { (v as u32 / 32) % 64 } else { v as u32 % 32 };
    if c == 1 { ((x * 259 + 32) / 64) as u8 } else { ((x * 526 + 32) / 64) as u8 }
}

/// Decodes the colour half of a block: 16 RGBA pixels; `alpha` gives each pixel's alpha
/// except where a 3-colour BC1 block marks it transparent.
fn bc_color_block(blk: &[u8], allow_bc1_alpha: bool, alpha: &Vec<u8>) -> (out: Vec<u8>)
    requires
        blk@.len() == 8,
        alpha@.len() == 16,
    ensures
        out@.len() == 64,
        forall|i: int| 0 <= i < 64 ==> #[trigger] out@[i] == bc_color_pixel(blk@, allow_bc1_alpha, |p: int| alpha@[p] as int, i / 4, i % 4),
{
    let c0 = le16(blk, 0);
    let c1 = le16(blk, 2);
    let indices = le32(blk, 4);
    let four = !allow_bc1_alpha || c0 > c1;
    let mut colors: Vec<u8> = Vec::new();
    let mut k: u8 = 0;
    while k < 4
        invariant
            blk@.len() == 8,
            c0 == u16_le(blk@, 0),
            c1 == u16_le(blk@, 2),
            four == bc_four_colors(allow_bc1_alpha, c0 as int, c1 as int),
            k <= 4,
            colors@.len() == 4 * k,
            forall|i: int| 0 <= i < colors@.len() ==> #[trigger] colors@[i] == bc_color(blk@, allow_bc1_alpha, i / 4, i % 4),
        decreases 4 - k,
    {
        let mut c: u8 = 0;
        while c < 4
            invariant
                blk@.len() == 8,
                c0 == u16_le(blk@, 0),
                c1 == u16_le(blk@, 2),
                four == bc_four_colors(allow_bc1_alpha, c0 as int, c1 as int),
                k < 4,
                c <= 4,
                colors@.len() == 4 * k + c,
                forall|i: int| 0 <= i < colors@.len() ==> #[trigger] colors@[i] == bc_color(blk@, allow_bc1_alpha, i / 4, i % 4),
            decreases 4 - c,
        {
            let v: u8 = if c == 3 {
                if k == 3 && !four { 0 } else { 255 }
            } else {
                let a = rgb565_exec(c0, c) as u32;
                let b = rgb565_exec(c1, c) as u32;
                if k == 0 { a as u8 } else if k == 1 { b as u8 } else if k == 2 {
                    if four { ((2 * a + b) / 3) as u8 } else { ((a + b) / 2) as u8 }
                } else {
                    if four { ((a + 2 * b) / 3) as u8 } else { 0 }
                }
            };
            colors.push(v);
            c += 1;
        }
        k += 1;
    }
    let mut out: Vec<u8> = Vec::new();
    let mut p: u32 = 0;
    while p < 16
        invariant
            blk@.len() == 8,
            alpha@.len() == 16,
            c0 == u16_le(blk@, 0),
            c1 == u16_le(blk@, 2),
            indices == u32_le(blk@, 4),
            colors@.len() == 16,
            forall|i: int| 0 <= i < 16 ==> #[trigger] colors@[i] == bc_color(blk@, allow_bc1_alpha, i / 4, i % 4),
            p <= 16,
            out@.len() == 4 * p,
            forall|i: int| 0 <= i < out@.len() ==> #[trigger] out@[i] == bc_color_pixel(blk@, allow_bc1_alpha, |q: int| alpha@[q] as int, i / 4, i % 4),
        decreases 16 - p,
    {
        let k = ((indices >> (2 * p)) & 3) as usize;
        assert(k == bc_color_index(blk@, p as int));
        assert(k < 4) by (bit_vector)
            requires
                k == ((indices >> (2 * p)) & 3) as usize,
        ;
        let keep = !allow_bc1_alpha || k != 3 || c0 > c1;
        out.push(colors[4 * k]);
        out.push(colors[4 * k + 1]);
        out.push(colors[4 * k + 2]);
        out.push(if keep { alpha[p as usize] } else { colors[4 * k + 3] });
        p += 1;
    }
    out
}

/// The 3-bit table index of pixel `p` of an alpha (or BC4/BC5 channel) block.
pub open spec fn bc_alpha_index(blk: Seq<u8>, p: int) -> int {
    let bits = u32_le(blk, 2) + 4294967296 * u16_le(blk, 6);
    (((bits as u64) >> ((3 * p) as u64)) & 7u64) as int
}

/// Entry `t` of the 8-entry table of an unsigned alpha block: the two endpoints, then
/// six interpolated values, or four and then 0 and 255 when the first endpoint is not larger.
pub open spec fn bc_alpha_table(blk: Seq<u8>, t: int) -> int {
    let a0 = blk[0] as int;
    let a1 = blk[1] as int;
    if t == 0 { a0 } else if t == 1 { a1 } else if a0 > a1 {
        (a0 * (8 - t) + a1 * (t - 1)) / 7
    } else if t <= 5 {
        (a0 * (6 - t) + a1 * (t - 1)) / 5
    } else if t == 6 { 0 } else { 255 }
}

/// The two's-complement reading of a byte.
pub open spec fn signed8(v: u8) -> int {
    if v < 128 { v as int } else { v as int - 256 }
}

/// Entry `t` of the table of a signed channel block, with floor division.
pub open spec fn bc_signed_table(blk: Seq<u8>, t: int) -> int {
    let a0 = signed8(blk[0]);
    let a1 = signed8(blk[1]);
    if t == 0 { a0 } else if t == 1 { a1 } else if a0 > a1 {
        (a0 * (8 - t) + a1 * (t - 1)) / 7
    } else if t <= 5 {
        (a0 * (6 - t) + a1 * (t - 1)) / 5
    } else if t == 6 { -128 } else { 127 }
}

/// A signed value clamped to -128..127 and moved to 0..255.
pub open spec fn signed_to_unorm(v: int) -> int {
    (if v < -128 { -128 } else if v > 127 { 127 } else { v }) + 128
}

/// The decoded value of pixel `p` of an 8-byte channel block, signed or not.
pub open spec fn bc_channel_value(blk: Seq<u8>, signed: bool, p: int) -> int {
    if signed {
        signed_to_unorm(bc_signed_table(blk, bc_alpha_index(blk, p)))
    } else {
        bc_alpha_table(blk, bc_alpha_index(blk, p))
    }
}

/// The explicit 4-bit alpha of pixel `p` of a BC2 block, widened to 8 bits.
pub open spec fn bc2_alpha(blk: Seq<u8>, p: int) -> int {
    ((((u64_le(blk, 0) as u64) >> ((4 * p) as u64)) & 15u64) as int) * 17
}

/// `(a0 * w0 + a1 * w1) / d` for byte values and weights summing to `d`.
fn lerp_unsigned(a0: u32, a1: u32, w0: u32, w1: u32, d: u32) -> (r: u8)
    requires
        a0 <= 255,
        a1 <= 255,
        d == 5 || d == 7,
        w0 + w1 == d,
    ensures
        r == (a0 * w0 + a1 * w1) / (d as int),
{
    assert(a0 * w0 <= 255 * w0 && a1 * w1 <= 255 * w1) by (nonlinear_arith)
        requires
            a0 <= 255,
            a1 <= 255,
    ;
    let t = a0 * w0 + a1 * w1;
    if d == 7 {
        (t / 7) as u8
    } else {
        (t / 5) as u8
    }
}

/// `(a0 * w0 + a1 * w1) / d`, rounded down, for signed byte values and weights summing to `d`.
fn lerp_signed(a0: i32, a1: i32, w0: i32, w1: i32, d: i32) -> (r: i32)
    requires
        -128 <= a0 <= 127,
        -128 <= a1 <= 127,
        d == 5 || d == 7,
        0 <= w0,
        0 <= w1,
        w0 + w1 == d,
    ensures
        r == (a0 * w0 + a1 * w1) / (d as int),
        -128 <= r <= 127,
{
    assert(-128 * w0 <= a0 * w0 <= 127 * w0 && -128 * w1 <= a1 * w1 <= 127 * w1) by (nonlinear_arith)
        requires
            -128 <= a0 <= 127,
            -128 <= a1 <= 127,
            0 <= w0,
            0 <= w1,
    ;
    let t = a0 * w0 + a1 * w1;
    if d == 7 {
        (t + 896) / 7 - 128
    } else {
        (t + 640) / 5 - 128
    }
}

/// The 16 values of an 8-byte channel block (an alpha block when unsigned).
fn bc_channel_values(blk: &[u8], signed: bool) -> (v: Vec<u8>)
    requires
        blk@.len() == 8,
    ensures
        v@.len() == 16,
        forall|p: int| 0 <= p < 16 ==> #[trigger] v@[p] == bc_channel_value(blk@, signed, p),
{
    let mut table: Vec<u8> = Vec::new();
    let mut t: u32 = 0;
    while t < 8
        invariant
            blk@.len() == 8,
            t <= 8,
            table@.len() == t,
            forall|k: int| 0 <= k < t ==> #[trigger] table@[k] == (if signed { signed_to_unorm(bc_signed_table(blk@, k)) } else { bc_alpha_table(blk@, k) }),
        decreases 8 - t,
    {
        let v: u8 = if signed {
            let a0: i32 = if blk[0] < 128 { blk[0] as i32 } else { blk[0] as i32 - 256 };
            let a1: i32 = if blk[1] < 128 { blk[1] as i32 } else { blk[1] as i32 - 256 };
            let s: i32 = if t == 0 { a0 } else if t == 1 { a1 } else if a0 > a1 {
                lerp_signed(a0, a1, 8 - t as i32, t as i32 - 1, 7)
            } else if t <= 5 {
                lerp_signed(a0, a1, 6 - t as i32, t as i32 - 1, 5)
            } else if t == 6 { -128 } else { 127 };
            let c: i32 = if s < -128 { -128 } else if s > 127 { 127 } else { s };
            (c + 128) as u8
        } else {
            let a0 = blk[0] as u32;
            let a1 = blk[1] as u32;
            if t == 0 { a0 as u8 } else if t == 1 { a1 as u8 } else if a0 > a1 {
                lerp_unsigned(a0, a1, 8 - t, t - 1, 7)
            } else if t <= 5 {
                lerp_unsigned(a0, a1, 6 - t, t - 1, 5)
            } else if t == 6 { 0 } else { 255 }
        };
        table.push(v);
        t += 1;
    }
    let bits: u64 = le32(blk, 2) as u64 + (le16(blk, 6) as u64) * 4294967296;
    let mut v: Vec<u8> = Vec::new();
    let mut p: u64 = 0;
    while p < 16
        invariant
            blk@.len() == 8,
            bits == u32_le(blk@, 2) + 4294967296 * u16_le(blk@, 6),
            table@.len() == 8,
            forall|k: int| 0 <= k < 8 ==> #[trigger] table@[k] == (if signed { signed_to_unorm(bc_signed_table(blk@, k)) } else { bc_alpha_table(blk@, k) }),
            p <= 16,
            v@.len() == p,
            forall|q: int| 0 <= q < p ==> #[trigger] v@[q] == bc_channel_value(blk@, signed, q),
        decreases 16 - p,
    {
        let kk: u64 = (bits >> (3 * p)) & 7;
        assert(kk < 8) by (bit_vector)
            requires
                kk == (bits >> (3 * p)) & 7,
        ;
        let k = kk as usize;
        assert(k == bc_alpha_index(blk@, p as int));
        v.push(table[k]);
        p += 1;
    }
    v
}

/// The 16 explicit alphas of a BC2 block.
fn bc2_alphas(blk: &[u8]) -> (v: Vec<u8>)
    requires
        blk@.len() == 8,
    ensures
        v@.len() == 16,
        forall|p: int| 0 <= p < 16 ==> #[trigger] v@[p] == bc2_alpha(blk@, p),
{
    let bits = le64(blk, 0);
    let mut v: Vec<u8> = Vec::new();
    let mut p: u64 = 0;
    while p < 16
        invariant
            blk@.len() == 8,
            bits == u64_le(blk@, 0),
            p <= 16,
            v@.len() == p,
            forall|q: int| 0 <= q < p ==> #[trigger] v@[q] == bc2_alpha(blk@, q),
        decreases 16 - p,
    {
        let n = (bits >> (4 * p)) & 15;
        assert(n < 16) by (bit_vector)
            requires
                n == (bits >> (4 * p)) & 15,
        ;
        v.push((n as u8) * 17);
        p += 1;
    }
    v
}

/// The integer nearest to the square root of `v` (for `v >= 1`): the least `n` from
/// `n` on with `v <= n * n + n`, which is the `n` with `n * n - n < v <= n * n + n`.
pub open spec fn round_root_from(v: int, n: nat) -> nat
    decreases v - n,
{
    if v <= n * n + n {
        n
    } else {
        proof {
            assert(n * n >= 0) by (nonlinear_arith);
        }
        round_root_from(v, n + 1)
    }
}

/// The blue channel of a unit normal from its red and green channels: the rounded root
/// of half of 255² minus their squares, or 127 when that half is not positive.
pub open spec fn normal_blue(r: int, g: int) -> int {
    let half = (65025 - r * r - g * g) / 2;
    if half <= 0 { 127 } else { round_root_from(half, 0) as int }
}

/// Channel `c` of the pixel rebuilt from the normal's red and green.
pub open spec fn normal_pixel(r: int, g: int, c: int) -> int {
    if c == 0 { r } else if c == 1 { g } else if c == 2 { normal_blue(r, g) } else { 255 }
}

/// A premultiplied channel restored: scaled by 255 over alpha, at most 255.
pub open spec fn unpremultiply(ch: int, a: int) -> int {
    if a == 0 { ch } else { min_int(ch * 255 / a, 255) }
}

/// Two to the power `k`.
pub open spec fn two_pow(k: nat) -> int
    decreases k,
{
    if k == 0 { 1 } else { 2 * two_pow((k - 1) as nat) }
}

/// `x / d` rounded toward zero.
pub open spec fn trunc_div(x: int, d: int) -> int {
    if x >= 0 { x / d } else { -((-x) / d) }
}

/// `v` clamped to 0..255.
pub open spec fn clamp_byte(v: int) -> int {
    if v < 0 { 0 } else if v > 255 { 255 } else { v }
}

/// Channel `c` of an RGBA pixel after the DXT5 transform `t`.
pub open spec fn bc3_transform(t: DdsBc3Transform, r: int, g: int, b: int, a: int, c: int) -> int {
    match t {
        DdsBc3Transform::Plain => if c == 0 { r } else if c == 1 { g } else if c == 2 { b } else { a },
        DdsBc3Transform::Aexp => if c == 0 { r * a / 255 } else if c == 1 { g * a / 255 } else if c == 2 { b * a / 255 } else { 255 },
        DdsBc3Transform::NormalAg => normal_pixel(a, g, c),
        DdsBc3Transform::Swizzle(s) => {
            let out: (int, int, int, int) = match s {
                DdsSwizzle::Rbxg => (r, a, g, 0),
                DdsSwizzle::Rgxb => (r, g, a, 0),
                DdsSwizzle::Rxbg => (r, a, b, 0),
                DdsSwizzle::Rxgb => (a, g, b, r),
                DdsSwizzle::Xgbr => (b, g, a, 0),
                DdsSwizzle::Xgxr => (a, g, 0, 0),
                DdsSwizzle::Xrbg => (g, a, b, 0),
            };
            if c == 0 { out.0 } else if c == 1 { out.1 } else if c == 2 { out.2 } else { out.3 }
        },
        DdsBc3Transform::Ycocg { scaled } => {
            let scale: int = if scaled { two_pow((b / 8) as nat) } else { 1 };
            let co = trunc_div(r - 128, scale);
            let cg = trunc_div(g - 128, scale);
            if c == 0 { clamp_byte(a - cg + co) } else if c == 1 { clamp_byte(a + cg) } else if c == 2 { clamp_byte(a - cg - co) } else { 255 }
        },
    }
}

/// Channel `c` of pixel `p` of a decoded block `blk` of the given kind.
pub open spec fn dds_block_byte(post: DdsPostprocess, blk: Seq<u8>, p: int, c: int) -> int {
    match post {
        DdsPostprocess::Bc1 { normal_map } => {
            let base = |cc: int| bc_color_pixel(blk, true, |q: int| 255int, p, cc);
            if normal_map { normal_pixel(base(0), base(1), c) } else { base(c) }
        },
        DdsPostprocess::Bc2 { premultiplied } => {
            let base = |cc: int| bc_color_pixel(blk.subrange(8, 16), false, |q: int| bc2_alpha(blk.subrange(0, 8), q), p, cc);
            if premultiplied && c < 3 { unpremultiply(base(c), base(3)) } else { base(c) }
        },
        DdsPostprocess::Bc3 { premultiplied, transform } => {
            let base = |cc: int| bc_color_pixel(blk.subrange(8, 16), false, |q: int| bc_channel_value(blk.subrange(0, 8), false, q), p, cc);
            let pm = |cc: int| if premultiplied && cc < 3 { unpremultiply(base(cc), base(3)) } else { base(cc) };
            bc3_transform(transform, pm(0), pm(1), pm(2), pm(3), c)
        },
        DdsPostprocess::Bc4 { signed } => if c == 3 { 255 } else { bc_channel_value(blk, signed, p) },
        DdsPostprocess::Bc5 { signed, swap_xy } => {
            let f = bc_channel_value(blk.subrange(0, 8), signed, p);
            let s = bc_channel_value(blk.subrange(8, 16), signed, p);
            if swap_xy { normal_pixel(s, f, c) } else { normal_pixel(f, s, c) }
        },
        _ => 0,
    }
}

/// Whether `post` decodes 4x4 blocks.
pub open spec fn is_block_kind(post: DdsPostprocess) -> bool {
    post is Bc1 || post is Bc2 || post is Bc3 || post is Bc4 || post is Bc5
}

/// The bytes per block of a block-compressed kind.
pub open spec fn block_bytes_of(post: DdsPostprocess) -> int {
    if post is Bc1 || post is Bc4 { 8 } else { 16 }
}

/// The blue channel of a unit normal rebuilt from its red and green channels.
pub fn dds_bc5_blue(r: u8, g: u8) -> (v: u8)
    ensures
        v == normal_blue(r as int, g as int),
{
    assert((r as int) * (r as int) <= 65025 && (g as int) * (g as int) <= 65025) by (nonlinear_arith)
        requires
            r <= 255,
            g <= 255,
    ;
    let r2 = r as i32 * r as i32;
    let g2 = g as i32 * g as i32;
    let num = 65025 - r2 - g2;
    if num <= 1 {
        return 127;
    }
    let half = num / 2;
    let mut n: u32 = 0;
    while half as u32 > n * n + n
        invariant
            1 <= half <= 32512,
            n <= 180,
            n * n + n <= 32580,
            round_root_from(half as int, 0) == round_root_from(half as int, n as nat),
        decreases 181 - n,
    {
        assert(n >= 180 ==> n * n + n >= 32580) by (nonlinear_arith);
        assert((n + 1) * (n + 1) + (n + 1) <= 32580) by (nonlinear_arith)
            requires
                n < 180,
        ;
        n += 1;
    }
    n as u8
}

fn unpremultiply_exec(ch: u8, a: u8) -> (r: u8)
    ensures
        r == unpremultiply(ch as int, a as int),
{
    if a == 0 {
        ch
    } else {
        let v = ch as u32 * 255 / a as u32;
        if v < 255 { v as u8 } else { 255 }
    }
}

fn clamp_byte_exec(v: i64) -> (r: u8)
    ensures
        r == clamp_byte(v as int),
{
    if v < 0 { 0 } else if v > 255 { 255 } else { v as u8 }
}

fn trunc_div_exec(x: i64, d: i64) -> (r: i64)
    requires
        d >= 1,
        -1000 <= x <= 1000,
    ensures
        r == trunc_div(x as int, d as int),
        -1000 <= r <= 1000,
{
    if x >= 0 { x / d } else { -((-x) / d) }
}

/// The scale of a scaled YCoCg pixel: two to the power `k`.
fn two_pow_exec(k: u8) -> (r: i64)
    requires
        k <= 31,
    ensures
        r == two_pow(k as nat),
        r >= 1,
{
    let mut r: i64 = 1;
    let mut j: u8 = 0;
    proof {
        lemma_two_pow_31();
    }
    while j < k
        invariant
            j <= k <= 31,
            r == two_pow(j as nat),
            1 <= r <= 0x4000_0000 * 2,
            r * two_pow((31 - j) as nat) == 0x8000_0000,
        decreases k - j,
    {
        proof {
            let rest = two_pow((31 - j) as nat);
            assert(rest == 2 * two_pow((31 - j - 1) as nat));
            assert(r * 2 * two_pow((31 - j - 1) as nat) == 0x8000_0000) by (nonlinear_arith)
                requires
                    r * rest == 0x8000_0000,
                    rest == 2 * two_pow((31 - j - 1) as nat),
            ;
            lemma_two_pow_pos((31 - j - 1) as nat);
            assert(r * 2 <= 0x8000_0000) by (nonlinear_arith)
                requires
                    r * 2 * two_pow((31 - j - 1) as nat) == 0x8000_0000,
                    two_pow((31 - j - 1) as nat) >= 1,
                    r >= 1,
            ;
        }
        r = r * 2;
        j += 1;
    }
    r
}

proof fn lemma_two_pow_pos(k: nat)
    ensures
        two_pow(k) >= 1,
    decreases k,
{
    if k > 0 {
        lemma_two_pow_pos((k - 1) as nat);
    }
}

proof fn lemma_two_pow_31()
    ensures
        two_pow(31) == 0x8000_0000,
{
    reveal_with_fuel(two_pow, 32);
}

/// Channel `c` of a pixel after the DXT5 transform `t`.
fn bc3_transform_exec(t: DdsBc3Transform, r: u8, g: u8, b: u8, a: u8, c: u8) -> (v: u8)
    requires
        c < 4,
    ensures
        v == bc3_transform(t, r as int, g as int, b as int, a as int, c as int),
{
    match t {
        DdsBc3Transform::Plain => if c == 0 { r } else if c == 1 { g } else if c == 2 { b } else { a },
        DdsBc3Transform::Aexp => {
            let ch = if c == 0 { r } else if c == 1 { g } else { b };
            assert((ch as int) * (a as int) <= 65025) by (nonlinear_arith)
                requires
                    ch <= 255,
                    a <= 255,
            ;
            if c == 3 { 255 } else { (ch as u32 * a as u32 / 255) as u8 }
        },
        DdsBc3Transform::NormalAg => if c == 0 { a } else if c == 1 { g } else if c == 2 { dds_bc5_blue(a, g) } else { 255 },
        DdsBc3Transform::Swizzle(s) => {
            let out: (u8, u8, u8, u8) = match s {
                DdsSwizzle::Rbxg => (r, a, g, 0),
                DdsSwizzle::Rgxb => (r, g, a, 0),
                DdsSwizzle::Rxbg => (r, a, b, 0),
                DdsSwizzle::Rxgb => (a, g, b, r),
                DdsSwizzle::Xgbr => (b, g, a, 0),
                DdsSwizzle::Xgxr => (a, g, 0, 0),
                DdsSwizzle::Xrbg => (g, a, b, 0),
            };
            if c == 0 { out.0 } else if c == 1 { out.1 } else if c == 2 { out.2 } else { out.3 }
        },
        DdsBc3Transform::Ycocg { scaled } => {
            let scale: i64 = if scaled { two_pow_exec(b / 8) } else { 1 };
            let co = trunc_div_exec(r as i64 - 128, scale);
            let cg = trunc_div_exec(g as i64 - 128, scale);
            let y = a as i64;
            if c == 0 { clamp_byte_exec(y - cg + co) } else if c == 1 { clamp_byte_exec(y + cg) } else if c == 2 { clamp_byte_exec(y - cg - co) } else { 255 }
        },
    }
}

/// Decodes one 4x4 block to 16 RGBA pixels.
#[verifier::rlimit(40)]
fn dds_decode_block(post: DdsPostprocess, blk: &[u8]) -> (out: Vec<u8>)
    requires
        is_block_kind(post),
        blk@.len() == block_bytes_of(post),
    ensures
        out@.len() == 64,
        forall|i: int| 0 <= i < 64 ==> #[trigger] out@[i] == dds_block_byte(post, blk@, i / 4, i % 4),
{
    let mut out: Vec<u8> = Vec::new();
    match post {
        DdsPostprocess::Bc1 { normal_map } => {
            let mut opaque: Vec<u8> = Vec::new();
            let mut k: usize = 0;
            while k < 16
                invariant
                    k <= 16,
                    opaque@.len() == k,
                    forall|q: int| 0 <= q < k ==> #[trigger] opaque@[q] == 255u8,
                decreases 16 - k,
            {
                opaque.push(255);
                k += 1;
            }
            let base = bc_color_block(blk, true, &opaque);
            let mut p: usize = 0;
            while p < 16
                invariant
                    post == (DdsPostprocess::Bc1 { normal_map }),
                    blk@.len() == 8,
                    opaque@.len() == 16,
                    forall|q: int| 0 <= q < 16 ==> #[trigger] opaque@[q] == 255u8,
                    base@.len() == 64,
                    forall|i: int| 0 <= i < 64 ==> #[trigger] base@[i] == bc_color_pixel(blk@, true, |q: int| opaque@[q] as int, i / 4, i % 4),
                    p <= 16,
                    out@.len() == 4 * p,
                    forall|i: int| 0 <= i < out@.len() ==> #[trigger] out@[i] == dds_block_byte(post, blk@, i / 4, i % 4),
                decreases 16 - p,
            {
                let r = base[4 * p];
                let g = base[4 * p + 1];
                if normal_map {
                    out.push(r);
                    out.push(g);
                    out.push(dds_bc5_blue(r, g));
                    out.push(255);
                } else {
                    out.push(r);
                    out.push(g);
                    out.push(base[4 * p + 2]);
                    out.push(base[4 * p + 3]);
                }
                p += 1;
            }
        },
        DdsPostprocess::Bc2 { premultiplied } => {
            let alpha = bc2_alphas(&blk[0..8]);
            let base = bc_color_block(&blk[8..16], false, &alpha);
            let mut p: usize = 0;
            while p < 16
                invariant
                    post == (DdsPostprocess::Bc2 { premultiplied }),
                    blk@.len() == 16,
                    alpha@.len() == 16,
                    forall|q: int| 0 <= q < 16 ==> #[trigger] alpha@[q] == bc2_alpha(blk@.subrange(0, 8), q),
                    base@.len() == 64,
                    forall|i: int| 0 <= i < 64 ==> #[trigger] base@[i] == bc_color_pixel(blk@.subrange(8, 16), false, |q: int| alpha@[q] as int, i / 4, i % 4),
                    p <= 16,
                    out@.len() == 4 * p,
                    forall|i: int| 0 <= i < out@.len() ==> #[trigger] out@[i] == dds_block_byte(post, blk@, i / 4, i % 4),
                decreases 16 - p,
            {
                let a = base[4 * p + 3];
                let mut c: usize = 0;
                while c < 3
                    invariant
                        post == (DdsPostprocess::Bc2 { premultiplied }),
                        blk@.len() == 16,
                        alpha@.len() == 16,
                        forall|q: int| 0 <= q < 16 ==> #[trigger] alpha@[q] == bc2_alpha(blk@.subrange(0, 8), q),
                        base@.len() == 64,
                        forall|i: int| 0 <= i < 64 ==> #[trigger] base@[i] == bc_color_pixel(blk@.subrange(8, 16), false, |q: int| alpha@[q] as int, i / 4, i % 4),
                        p < 16,
                        a == base@[4 * p + 3],
                        c <= 3,
                        out@.len() == 4 * p + c,
                        forall|i: int| 0 <= i < out@.len() ==> #[trigger] out@[i] == dds_block_byte(post, blk@, i / 4, i % 4),
                    decreases 3 - c,
                {
                    let ch = base[4 * p + c];
                    out.push(if premultiplied { unpremultiply_exec(ch, a) } else { ch });
                    c += 1;
                }
                out.push(a);
                p += 1;
            }
        },
        DdsPostprocess::Bc3 { premultiplied, transform } => {
            let alpha = bc_channel_values(&blk[0..8], false);
            let base = bc_color_block(&blk[8..16], false, &alpha);
            let mut p: usize = 0;
            while p < 16
                invariant
                    post == (DdsPostprocess::Bc3 { premultiplied, transform }),
                    blk@.len() == 16,
                    alpha@.len() == 16,
                    forall|q: int| 0 <= q < 16 ==> #[trigger] alpha@[q] == bc_channel_value(blk@.subrange(0, 8), false, q),
                    base@.len() == 64,
                    forall|i: int| 0 <= i < 64 ==> #[trigger] base@[i] == bc_color_pixel(blk@.subrange(8, 16), false, |q: int| alpha@[q] as int, i / 4, i % 4),
                    p <= 16,
                    out@.len() == 4 * p,
                    forall|i: int| 0 <= i < out@.len() ==> #[trigger] out@[i] == dds_block_byte(post, blk@, i / 4, i % 4),
                decreases 16 - p,
            {
                let a = base[4 * p + 3];
                let r = if premultiplied { unpremultiply_exec(base[4 * p], a) } else { base[4 * p] };
                let g = if premultiplied { unpremultiply_exec(base[4 * p + 1], a) } else { base[4 * p + 1] };
                let b = if premultiplied { unpremultiply_exec(base[4 * p + 2], a) } else { base[4 * p + 2] };
                out.push(bc3_transform_exec(transform, r, g, b, a, 0));
                out.push(bc3_transform_exec(transform, r, g, b, a, 1));
                out.push(bc3_transform_exec(transform, r, g, b, a, 2));
                out.push(bc3_transform_exec(transform, r, g, b, a, 3));
                p += 1;
            }
        },
        DdsPostprocess::Bc4 { signed } => {
            let v = bc_channel_values(blk, signed);
            let mut p: usize = 0;
            while p < 16
                invariant
                    post == (DdsPostprocess::Bc4 { signed }),
                    blk@.len() == 8,
                    v@.len() == 16,
                    forall|q: int| 0 <= q < 16 ==> #[trigger] v@[q] == bc_channel_value(blk@, signed, q),
                    p <= 16,
                    out@.len() == 4 * p,
                    forall|i: int| 0 <= i < out@.len() ==> #[trigger] out@[i] == dds_block_byte(post, blk@, i / 4, i % 4),
                decreases 16 - p,
            {
                out.push(v[p]);
                out.push(v[p]);
                out.push(v[p]);
                out.push(255);
                p += 1;
            }
        },
        DdsPostprocess::Bc5 { signed, swap_xy } => {
            let f = bc_channel_values(&blk[0..8], signed);
            let s = bc_channel_values(&blk[8..16], signed);
            let mut p: usize = 0;
            while p < 16
                invariant
                    post == (DdsPostprocess::Bc5 { signed, swap_xy }),
                    blk@.len() == 16,
                    f@.len() == 16,
                    s@.len() == 16,
                    forall|q: int| 0 <= q < 16 ==> #[trigger] f@[q] == bc_channel_value(blk@.subrange(0, 8), signed, q),
                    forall|q: int| 0 <= q < 16 ==> #[trigger] s@[q] == bc_channel_value(blk@.subrange(8, 16), signed, q),
                    p <= 16,
                    out@.len() == 4 * p,
                    forall|i: int| 0 <= i < out@.len() ==> #[trigger] out@[i] == dds_block_byte(post, blk@, i / 4, i % 4),
                decreases 16 - p,
            {
                let (r, g) = if swap_xy { (s[p], f[p]) } else { (f[p], s[p]) };
                out.push(r);
                out.push(g);
                out.push(dds_bc5_blue(r, g));
                out.push(255);
                p += 1;
            }
        },
        _ => {},
    }
    out
}

/// The stored data of the base level.
pub open spec fn dds_data(b: Seq<u8>, h: DdsHeader) -> Seq<u8> {
    b.subrange(h.frame_offset as int, h.frame_offset + h.frame_size)
}

/// Each whole 4-byte pixel of `d` mapped by `f` (which gets the four bytes and the
/// output channel); a trailing partial pixel is dropped.
pub open spec fn map_pixels4(d: Seq<u8>, f: spec_fn(int, int, int, int, int) -> int) -> Seq<u8> {
    Seq::new(((d.len() / 4) * 4) as nat, |i: int| {
        let p = 4 * (i / 4);
        f(d[p] as int, d[p + 1] as int, d[p + 2] as int, d[p + 3] as int, i % 4) as u8
    })
}

/// Colours premultiplied by their alpha, then made opaque.
pub open spec fn aexp_pixel(r: int, g: int, b: int, a: int, c: int) -> int {
    if c == 0 { r * a / 255 } else if c == 1 { g * a / 255 } else if c == 2 { b * a / 255 } else { 255 }
}

/// A YCoCg pixel (co in the third byte, cg in the second, luma in the fourth) as RGB.
pub open spec fn ycocg_pixel(r: int, g: int, b: int, a: int, c: int) -> int {
    let co = b - 128;
    let cg = g - 128;
    if c == 0 { clamp_byte(a - cg + co) } else if c == 1 { clamp_byte(a + cg) } else if c == 2 { clamp_byte(a - cg - co) } else { 255 }
}

/// Byte `i` of the output palette: the stored BGRA entries reordered to RGBA.
pub open spec fn dds_palette_byte(b: Seq<u8>, po: int, i: int) -> u8 {
    let c = i % 4;
    b[po + 4 * (i / 4) + (if c == 0 { 2int } else if c == 1 { 1 } else if c == 2 { 0 } else { 3 })]
}

/// The 16 decoded RGBA pixels of block `blk`.
pub open spec fn dds_block_rgba(post: DdsPostprocess, blk: Seq<u8>) -> Seq<u8> {
    Seq::new(64, |i: int| dds_block_byte(post, blk, i / 4, i % 4) as u8)
}

/// The stored bytes of block `k` (blocks in row-major order).
pub open spec fn dds_block_at(d: Seq<u8>, h: DdsHeader, k: int) -> Seq<u8> {
    let bb = block_bytes_of(h.postprocess);
    d.subrange(k * bb, k * bb + bb)
}

/// Pixel `x` of row `y` of a block-compressed image: its place in its 4x4 block.
pub open spec fn dds_block_pixel(d: Seq<u8>, h: DdsHeader, y: int, x: int) -> Seq<u8> {
    let k = (y / 4) * ((h.width + 3) / 4) + x / 4;
    let q = (y % 4) * 4 + x % 4;
    dds_block_rgba(h.postprocess, dds_block_at(d, h, k)).subrange(4 * q, 4 * q + 4)
}

/// Row `y` of a block-compressed image.
pub open spec fn dds_block_row(d: Seq<u8>, h: DdsHeader, y: int) -> Seq<u8> {
    concat_rows(h.width as int, |x: int| dds_block_pixel(d, h, y, x))
}

/// The decoded frame of the DDS file `b`: the stored bytes, with the BGRA palette for
/// indexed images, or the RGBA pixels that the transforms and block decoders give.
pub open spec fn spec_dds_frame(b: Seq<u8>) -> core::result::Result<Seq<u8>, Failure> {
    match spec_dds_header(b) {
        Err(e) => Err(e),
        Ok(h) => {
            let d = dds_data(b, h);
            match h.postprocess {
                DdsPostprocess::Raw => Ok(d),
                DdsPostprocess::Palette { palette_offset } => Ok(d + Seq::new(1024, |i: int| dds_palette_byte(b, palette_offset as int, i))),
                DdsPostprocess::Aexp => Ok(map_pixels4(d, |r: int, g: int, bl: int, a: int, c: int| aexp_pixel(r, g, bl, a, c))),
                DdsPostprocess::Ycocg => Ok(map_pixels4(d, |r: int, g: int, bl: int, a: int, c: int| ycocg_pixel(r, g, bl, a, c))),
                _ => if h.width * h.height > usize::MAX || h.width * h.height * 4 > usize::MAX {
                    Err(Failure::InvalidData)
                } else {
                    Ok(concat_rows(h.height as int, |y: int| dds_block_row(d, h, y)))
                },
            }
        },
    }
}

fn aexp_exec(r: u8, a: u8) -> (v: u8)
    ensures
        v == r * a / 255,
{
    assert((r as int) * (a as int) <= 65025) by (nonlinear_arith)
        requires
            r <= 255,
            a <= 255,
    ;
    (r as u32 * a as u32 / 255) as u8
}

fn dds_map_pixels(d: &[u8], ycocg: bool) -> (v: Vec<u8>)
    ensures
        ycocg ==> v@ == map_pixels4(d@, |r: int, g: int, bl: int, a: int, c: int| ycocg_pixel(r, g, bl, a, c)),
        !ycocg ==> v@ == map_pixels4(d@, |r: int, g: int, bl: int, a: int, c: int| aexp_pixel(r, g, bl, a, c)),
{
    let n = d.len() / 4;
    let mut v: Vec<u8> = Vec::new();
    let mut p: usize = 0;
    while p < n
        invariant
            n == d@.len() / 4,
            d@.len() <= usize::MAX,
            p <= n,
            v@.len() == 4 * p,
            forall|i: int| 0 <= i < v@.len() ==> #[trigger] v@[i] == (if ycocg {
                map_pixels4(d@, |r: int, g: int, bl: int, a: int, c: int| ycocg_pixel(r, g, bl, a, c))[i]
            } else {
                map_pixels4(d@, |r: int, g: int, bl: int, a: int, c: int| aexp_pixel(r, g, bl, a, c))[i]
            }),
        decreases n - p,
    {
        let r = d[4 * p];
        let g = d[4 * p + 1];
        let b = d[4 * p + 2];
        let a = d[4 * p + 3];
        if ycocg {
            let co = b as i64 - 128;
            let cg = g as i64 - 128;
            let y = a as i64;
            v.push(clamp_byte_exec(y - cg + co));
            v.push(clamp_byte_exec(y + cg));
            v.push(clamp_byte_exec(y - cg - co));
            v.push(255);
        } else {
            v.push(aexp_exec(r, a));
            v.push(aexp_exec(g, a));
            v.push(aexp_exec(b, a));
            v.push(255);
        }
        p += 1;
    }
    proof {
        if ycocg {
            assert(v@ =~= map_pixels4(d@, |r: int, g: int, bl: int, a: int, c: int| ycocg_pixel(r, g, bl, a, c)));
        } else {
            assert(v@ =~= map_pixels4(d@, |r: int, g: int, bl: int, a: int, c: int| aexp_pixel(r, g, bl, a, c)));
        }
    }
    v
}

/// The decoded blocks of block row `by`, left to right.
fn dds_decode_band(d: &[u8], h: &DdsHeader, bw: usize, bh: usize, by: usize) -> (band: Vec<Vec<u8>>)
    requires
        is_block_kind(h.postprocess),
        bw == (h.width + 3) / 4,
        by < bh,
        d@.len() == bw * bh * block_bytes_of(h.postprocess),
    ensures
        band@.len() == bw,
        forall|j: int| 0 <= j < bw ==> #[trigger] band@[j]@ == dds_block_rgba(h.postprocess, dds_block_at(d@, *h, by * bw + j)),
{
    let post = h.postprocess;
    let bb: usize = match post {
        DdsPostprocess::Bc1 { .. } | DdsPostprocess::Bc4 { .. } => 8,
        _ => 16,
    };
    let dlen = d.len();
    let mut band: Vec<Vec<u8>> = Vec::new();
    let mut bx: usize = 0;
    while bx < bw
        invariant
            post == h.postprocess,
            is_block_kind(post),
            bb == block_bytes_of(post),
            bw == (h.width + 3) / 4,
            by < bh,
            dlen == d@.len(),
            d@.len() == bw * bh * bb,
            bx <= bw,
            band@.len() == bx,
            forall|j: int| 0 <= j < bx ==> #[trigger] band@[j]@ == dds_block_rgba(post, dds_block_at(d@, *h, by * bw + j)),
        decreases bw - bx,
    {
        assert((by * bw + bx) * bb + bb <= bw * bh * bb) by (nonlinear_arith)
            requires
                by < bh,
                bx < bw,
                bb >= 1,
        ;
        assert(by * bw + bx <= (by * bw + bx) * bb) by (nonlinear_arith)
            requires
                bb >= 1,
        ;
        assert(by * bw <= by * bw + bx);
        let start = (by * bw + bx) * bb;
        let blk = dds_decode_block(post, &d[start..start + bb]);
        assert(blk@ =~= dds_block_rgba(post, dds_block_at(d@, *h, by * bw + bx)));
        band.push(blk);
        bx += 1;
    }
    band
}

/// Output row `y` (of block row `y / 4`) from the decoded blocks of its block row.
fn dds_emit_row(d: &[u8], h: &DdsHeader, band: &Vec<Vec<u8>>, bw: usize, y: usize) -> (row: Vec<u8>)
    requires
        bw == (h.width + 3) / 4,
        band@.len() == bw,
        forall|j: int| 0 <= j < bw ==> #[trigger] band@[j]@ == dds_block_rgba(h.postprocess, dds_block_at(d@, *h, (y / 4) * bw + j)),
    ensures
        row@ == dds_block_row(d@, *h, y as int),
{
    let w = h.width;
    let mut row: Vec<u8> = Vec::new();
    let mut x: usize = 0;
    while x < w
        invariant
            w == h.width,
            bw == (h.width + 3) / 4,
            band@.len() == bw,
            forall|j: int| 0 <= j < bw ==> #[trigger] band@[j]@ == dds_block_rgba(h.postprocess, dds_block_at(d@, *h, (y / 4) * bw + j)),
            x <= w,
            row@ == concat_rows(x as int, |x2: int| dds_block_pixel(d@, *h, y as int, x2)),
        decreases w - x,
    {
        let q = (y % 4) * 4 + x % 4;
        let blk = &band[x / 4];
        assert(blk@ == dds_block_rgba(h.postprocess, dds_block_at(d@, *h, (y / 4) * bw + x / 4)));
        let pix = &blk.as_slice()[4 * q..4 * q + 4];
        assert(pix@ == dds_block_pixel(d@, *h, y as int, x as int));
        append_bytes(&mut row, pix);
        x += 1;
    }
    row
}

fn dds_blocks_frame(d: &[u8], h: &DdsHeader) -> (r: Result<Vec<u8>>)
    requires
        is_block_kind(h.postprocess),
        1 <= h.width <= u32::MAX,
        1 <= h.height <= u32::MAX,
        d@.len() == ((h.width + 3) / 4) * ((h.height + 3) / 4) * block_bytes_of(h.postprocess),
    ensures
        match r {
            Ok(v) => !(h.width * h.height > usize::MAX || h.width * h.height * 4 > usize::MAX)
                && v@ == concat_rows(h.height as int, |y: int| dds_block_row(d@, *h, y)),
            Err(e) => (h.width * h.height > usize::MAX || h.width * h.height * 4 > usize::MAX) && failure(e) == Failure::InvalidData,
        },
{
    let w = h.width;
    let hgt = h.height;
    match dds_packed_size(w, hgt, 4) {
        None => return Err(invalid_data("DDS frame size overflow")),
        Some(_) => {},
    }
    let bw = w / 4 + if w % 4 == 0 { 0 } else { 1 };
    let bh = hgt / 4 + if hgt % 4 == 0 { 0 } else { 1 };
    assert(bw == (w + 3) / 4 && bh == (hgt + 3) / 4);
    let mut frame: Vec<u8> = Vec::new();
    let mut y: usize = 0;
    while y < hgt
        invariant
            w == h.width,
            hgt == h.height,
            is_block_kind(h.postprocess),
            bw == (w + 3) / 4,
            bh == (hgt + 3) / 4,
            d@.len() == bw * bh * block_bytes_of(h.postprocess),
            y <= hgt,
            y % 4 == 0 || y == hgt,
            frame@ == concat_rows(y as int, |y2: int| dds_block_row(d@, *h, y2)),
        decreases hgt - y,
    {
        let by = y / 4;
        let band = dds_decode_band(d, h, bw, bh, by);
        let row_end = if hgt - y < 4 { hgt } else { y + 4 };
        while y < row_end
            invariant
                hgt == h.height,
                bw == (h.width + 3) / 4,
                band@.len() == bw,
                forall|j: int| 0 <= j < bw ==> #[trigger] band@[j]@ == dds_block_rgba(h.postprocess, dds_block_at(d@, *h, by * bw + j)),
                by * 4 <= y <= row_end <= hgt,
                row_end == hgt || row_end == by * 4 + 4,
                row_end <= by * 4 + 4,
                frame@ == concat_rows(y as int, |y2: int| dds_block_row(d@, *h, y2)),
            decreases row_end - y,
        {
            assert(y / 4 == by);
            let row = dds_emit_row(d, h, &band, bw, y);
            append_bytes(&mut frame, &row);
            y += 1;
        }
    }
    Ok(frame)
}

/// Decodes the base level of a DDS file.
pub fn dds_frame(bytes: &[u8]) -> (r: Result<Vec<u8>>)
    ensures
        match r {
            Ok(v) => spec_dds_frame(bytes@) == Ok::<Seq<u8>, Failure>(v@),
            Err(e) => spec_dds_frame(bytes@) == Err::<Seq<u8>, Failure>(failure(e)),
        },
{
    let h = match dds_header(bytes) {
        Ok(h) => h,
        Err(e) => return Err(e),
    };
    let d = &bytes[h.frame_offset..h.frame_offset + h.frame_size];
    match h.postprocess {
        DdsPostprocess::Raw => {
            let mut v: Vec<u8> = Vec::new();
            append_bytes(&mut v, d);
            Ok(v)
        },
        DdsPostprocess::Palette { palette_offset } => {
            let mut v: Vec<u8> = Vec::new();
            append_bytes(&mut v, d);
            let mut e: usize = 0;
            let ghost dv = d@;
            while e < 256
                invariant
                    palette_offset == 128,
                    bytes@.len() >= 1152,
                    e <= 256,
                    v@.len() == dv.len() + 4 * e,
                    forall|i: int| 0 <= i < dv.len() ==> #[trigger] v@[i] == dv[i],
                    forall|k: int| dv.len() <= k < dv.len() + 4 * e ==> #[trigger] v@[k] == dds_palette_byte(bytes@, 128, k - dv.len()),
                decreases 256 - e,
            {
                let s = 128 + 4 * e;
                v.push(bytes[s + 2]);
                v.push(bytes[s + 1]);
                v.push(bytes[s]);
                v.push(bytes[s + 3]);
                e += 1;
            }
            assert(v@ =~= dv + Seq::new(1024, |i: int| dds_palette_byte(bytes@, palette_offset as int, i)));
            Ok(v)
        },
        DdsPostprocess::Aexp => Ok(dds_map_pixels(d, false)),
        DdsPostprocess::Ycocg => Ok(dds_map_pixels(d, true)),
        _ => dds_blocks_frame(d, &h),
    }
}

/// The frame checksum of a DDS image's base level.
pub fn dds_image_frame_hashes(input: &[u8]) -> (r: Result<Vec<AudioFrameHash>>)
    ensures
        listing_outcome(r) == single_listing(spec_dds_frame(input@)),
{
    match dds_frame(input) {
        Ok(frame) => Ok(single_frame_listing(&frame)),
        Err(e) => Err(e),
    }
}

} // verus!
