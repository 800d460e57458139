use vstd::prelude::*;
use crate::bytes::{sat, sat_add, has_tag, le16, read_outcome16, read_result, tag_at, u16_le};
use crate::error::{eof, failure, invalid_data, unexpected_eof, unsupported, Failure, Result, RmpegError};
use crate::metadata::{probe_outcome, secs, video_stream, zero_secs, zero_seconds, Probe, ProbeDocument, Seconds, StreamMetadata};
use crate::error::with_number;

verus! {

/// Frame count and summed frame delays of a GIF stream.
pub struct GifTiming {
    pub frame_count: u32,
    pub delay_centiseconds: u64,
}

/// Whether `b` starts with "GIF87a" or "GIF89a".
pub open spec fn gif_magic(b: Seq<u8>) -> bool {
    has_tag(b, 0, seq![0x47u8, 0x49, 0x46, 0x38, 0x37, 0x61]) || has_tag(b, 0, seq![0x47u8, 0x49, 0x46, 0x38, 0x39, 0x61])
}

/// The byte size of a color table whose size field (low three bits of `packed`) is `packed`.
pub open spec fn gif_table_len(packed: u8) -> int {
    let k = packed & 7;
    if k == 0 { 6 } else if k == 1 { 12 } else if k == 2 { 24 } else if k == 3 { 48 }
    else if k == 4 { 96 } else if k == 5 { 192 } else if k == 6 { 384 } else { 768 }
}

/// The position after the data sub-blocks starting at `pos` (each a length byte and that
/// many bytes, ended by a zero length).
pub open spec fn gif_skip(b: Seq<u8>, pos: int) -> core::result::Result<int, Failure>
    decreases b.len() - pos,
{
    if pos < 0 || pos >= b.len() {
        Err(eof(sat(pos + 1), b.len() as int))
    } else if b[pos] == 0 {
        Ok(pos + 1)
    } else if pos + 1 + b[pos] > b.len() {
        Err(eof(sat(pos + 1 + b[pos]), b.len() as int))
    } else {
        gif_skip(b, pos + 1 + b[pos])
    }
}

/// A successful skip ends after where it started and within the input.
pub proof fn lemma_gif_skip(b: Seq<u8>, pos: int)
    ensures
        gif_skip(b, pos) matches Ok(n) ==> pos < n <= b.len(),
    decreases b.len() - pos,
{
    if 0 <= pos < b.len() && b[pos] != 0 && pos + 1 + b[pos] <= b.len() {
        lemma_gif_skip(b, pos + 1 + b[pos]);
    }
}

/// The position after a graphic control extension body at `pos`, and the timing with its
/// delay added.
pub open spec fn gif_gce(b: Seq<u8>, pos: int, t: GifTiming) -> core::result::Result<(int, GifTiming), Failure> {
    if pos >= b.len() {
        Err(eof(sat(pos + 1), b.len() as int))
    } else if b[pos] != 4 {
        Err(Failure::InvalidData)
    } else if pos + 6 > b.len() {
        Err(eof(sat(pos + 6), b.len() as int))
    } else if b[pos + 5] != 0 {
        Err(Failure::InvalidData)
    } else {
        let d = t.delay_centiseconds + u16_le(b, pos + 2);
        Ok((pos + 6, GifTiming {
            delay_centiseconds: if d > u64::MAX { u64::MAX } else { d as u64 },
            ..t
        }))
    }
}

/// The position after an image (descriptor, optional local color table, LZW data) at `pos`.
pub open spec fn gif_image(b: Seq<u8>, pos: int) -> core::result::Result<int, Failure> {
    let packed = b[pos + 8];
    let data_pos = if packed & 0x80 != 0 { pos + 9 + gif_table_len(packed) } else { pos + 9 };
    if pos + 9 > b.len() {
        Err(eof(sat(pos + 9), b.len() as int))
    } else if data_pos > b.len() {
        Err(eof(sat(data_pos), b.len() as int))
    } else if data_pos >= b.len() {
        Err(eof(sat(data_pos + 1), b.len() as int))
    } else {
        gif_skip(b, data_pos + 1)
    }
}

/// The timing after walking the blocks from `pos`.
pub open spec fn gif_blocks(b: Seq<u8>, pos: int, t: GifTiming) -> core::result::Result<GifTiming, Failure>
    decreases b.len() - pos,
{
    if pos < 0 || pos >= b.len() {
        Ok(t)
    } else if b[pos] == 0x21 {
        if pos + 1 >= b.len() {
            Err(eof(sat(pos + 2), b.len() as int))
        } else if b[pos + 1] == 0xf9 {
            match gif_gce(b, pos + 2, t) {
                Err(e) => Err(e),
                Ok(r) => gif_blocks(b, r.0, r.1),
            }
        } else {
            proof { lemma_gif_skip(b, pos + 2); }
            match gif_skip(b, pos + 2) {
                Err(e) => Err(e),
                Ok(n) => gif_blocks(b, n, t),
            }
        }
    } else if b[pos] == 0x2c {
        let t2 = GifTiming {
            frame_count: if t.frame_count == u32::MAX { u32::MAX } else { (t.frame_count + 1) as u32 },
            ..t
        };
        proof { lemma_gif_skip(b, gif_image_data(b, pos + 1) + 1); }
        match gif_image(b, pos + 1) {
            Err(e) => Err(e),
            Ok(n) => gif_blocks(b, n, t2),
        }
    } else if b[pos] == 0x3b {
        Ok(t)
    } else {
        Err(Failure::InvalidData)
    }
}

/// Where the LZW data of the image whose descriptor starts at `pos` begins, minus one.
pub open spec fn gif_image_data(b: Seq<u8>, pos: int) -> int {
    let packed = b[pos + 8];
    if packed & 0x80 != 0 { pos + 9 + gif_table_len(packed) } else { pos + 9 }
}

/// The timing of a whole GIF: after the header and the optional global color table.
pub open spec fn gif_timing(b: Seq<u8>) -> core::result::Result<GifTiming, Failure> {
    let start = if b[10] & 0x80 != 0 { 13 + gif_table_len(b[10]) } else { 13 };
    if start > b.len() {
        Err(eof(start, b.len() as int))
    } else {
        gif_blocks(b, start, GifTiming { frame_count: 0, delay_centiseconds: 0 })
    }
}

/// The duration a GIF's timing gives: its delays, else ten frames per second.
pub open spec fn gif_duration(t: GifTiming) -> Seconds {
    if t.delay_centiseconds > 0 {
        secs(t.delay_centiseconds as int, 100)
    } else if t.frame_count > 0 {
        secs(t.frame_count as int, 10)
    } else {
        zero_secs()
    }
}

/// The probe of a GIF image or animation.
pub open spec fn spec_parse_gif(b: Seq<u8>) -> core::result::Result<Probe, Failure> {
    if !gif_magic(b) {
        Err(Failure::InvalidData)
    } else if b.len() < 13 {
        Err(eof(13, b.len() as int))
    } else if u16_le(b, 6) == 0 || u16_le(b, 8) == 0 {
        Err(Failure::InvalidData)
    } else {
        match gif_timing(b) {
            Err(e) => Err(e),
            Ok(t) => Ok(Probe {
                format: "gif",
                streams: seq![video_stream(0, "gif", u16_le(b, 6), u16_le(b, 8), Some(gif_duration(t)), None)],
            }),
        }
    }
}

/// Probes a GIF file.
pub fn parse_gif(bytes: &[u8]) -> (r: Result<ProbeDocument>)
    ensures
        probe_outcome(r) == spec_parse_gif(bytes@),
{
    if !looks_like_gif(bytes) {
        return Err(invalid_data("missing GIF signature"));
    }
    if bytes.len() < 13 {
        return Err(unexpected_eof(13, bytes.len()));
    }
    let width = match read_u16_le(bytes, 6) {
        Ok(v) => v,
        Err(e) => return Err(e),
    } as u32;
    let height = match read_u16_le(bytes, 8) {
        Ok(v) => v,
        Err(e) => return Err(e),
    } as u32;
    if width == 0 || height == 0 {
        return Err(invalid_data("GIF dimensions must be nonzero"));
    }
    let timing = match parse_blocks(bytes) {
        Ok(v) => v,
        Err(e) => return Err(e),
    };
    let duration = if timing.delay_centiseconds > 0 {
        Seconds { num: timing.delay_centiseconds as u128, den: 100 }
    } else if timing.frame_count > 0 {
        Seconds { num: timing.frame_count as u128, den: 10 }
    } else {
        zero_seconds()
    };
    Ok(ProbeDocument::single("gif", StreamMetadata::video(0, "gif", width, height, Some(duration), None)))
}

/// Whether `bytes` starts with a GIF signature.
pub fn looks_like_gif(bytes: &[u8]) -> (r: bool)
    ensures
        r == gif_magic(bytes@),
{
    tag_at(bytes, 0, &[0x47u8, 0x49, 0x46, 0x38, 0x37, 0x61]) || tag_at(bytes, 0, &[0x47u8, 0x49, 0x46, 0x38, 0x39, 0x61])
}

fn parse_blocks(bytes: &[u8]) -> (r: Result<GifTiming>)
    requires
        bytes@.len() >= 13,
    ensures
        match r {
            Ok(t) => gif_timing(bytes@) == Ok::<GifTiming, Failure>(t),
            Err(e) => gif_timing(bytes@) == Err::<GifTiming, Failure>(failure(e)),
        },
{
    let mut pos: usize = 13;
    if has_global_color_table(bytes[10]) {
        let table_len = match color_table_len(bytes[10]) {
        Ok(v) => v,
        Err(e) => return Err(e),
    };
        pos = pos + table_len;
        if pos > bytes.len() {
            return Err(unexpected_eof(pos, bytes.len()));
        }
    }
    let mut timing = GifTiming { frame_count: 0, delay_centiseconds: 0 };
    loop
        invariant
            pos <= bytes@.len(),
            gif_timing(bytes@) == gif_blocks(bytes@, pos as int, timing),
        decreases bytes@.len() - pos,
    {
        if pos >= bytes.len() {
            return Ok(timing);
        }
        let marker = bytes[pos];
        let p1 = pos + 1;
        if marker == 0x21 {
            if p1 >= bytes.len() {
                return Err(unexpected_eof(sat_add(p1, 1), bytes.len()));
            }
            let label = bytes[p1];
            let p2 = p1 + 1;
            if label == 0xf9 {
                pos = match parse_graphic_control_extension(bytes, p2, &mut timing) {
        Ok(v) => v,
        Err(e) => return Err(e),
    };
            } else {
                proof { lemma_gif_skip(bytes@, p2 as int); }
                pos = match skip_sub_blocks(bytes, p2) {
        Ok(v) => v,
        Err(e) => return Err(e),
    };
            }
        } else if marker == 0x2c {
            timing.frame_count = timing.frame_count.saturating_add(1);
            proof { lemma_gif_skip(bytes@, gif_image_data(bytes@, p1 as int) + 1); }
            pos = match parse_image_descriptor(bytes, p1) {
        Ok(v) => v,
        Err(e) => return Err(e),
    };
        } else if marker == 0x3b {
            return Ok(timing);
        } else {
            let mut message = with_number("unsupported GIF block marker ", marker as u64);
            return Err(RmpegError::InvalidData(message));
        }
    }
}

fn parse_graphic_control_extension(bytes: &[u8], pos: usize, timing: &mut GifTiming) -> (r: Result<usize>)
    requires
        pos <= bytes@.len(),
    ensures
        match r {
            Ok(n) => gif_gce(bytes@, pos as int, *old(timing)) == Ok::<(int, GifTiming), Failure>(
                (n as int, *final(timing))) && pos < n <= bytes@.len(),
            Err(e) => gif_gce(bytes@, pos as int, *old(timing)) == Err::<(int, GifTiming), Failure>(failure(e)),
        },
{
    if pos >= bytes.len() {
        return Err(unexpected_eof(sat_add(pos, 1), bytes.len()));
    }
    let block_size = bytes[pos];
    if block_size != 4 {
        return Err(RmpegError::InvalidData(with_number("unexpected GIF graphic control block size ", block_size as u64)));
    }
    if bytes.len() - pos < 6 {
        return Err(unexpected_eof(sat_add(pos, 6), bytes.len()));
    }
    let data_start = pos + 1;
    let data_end = data_start + 4;
    let delay = match read_u16_le(bytes, data_start + 1) {
        Ok(v) => v,
        Err(e) => return Err(e),
    };
    let new_delay = timing.delay_centiseconds.saturating_add(delay as u64);
    if bytes[data_end] != 0 {
        return Err(invalid_data("GIF graphic control extension is not terminated"));
    }
    timing.delay_centiseconds = new_delay;
    Ok(data_end + 1)
}

fn parse_image_descriptor(bytes: &[u8], pos: usize) -> (r: Result<usize>)
    requires
        pos <= bytes@.len(),
    ensures
        match r {
            Ok(n) => gif_image(bytes@, pos as int) == Ok::<int, Failure>(n as int) && pos < n <= bytes@.len(),
            Err(e) => gif_image(bytes@, pos as int) == Err::<int, Failure>(failure(e)),
        },
{
    if bytes.len() - pos < 9 {
        return Err(unexpected_eof(sat_add(pos, 9), bytes.len()));
    }
    let descriptor_end = pos + 9;
    let packed = bytes[pos + 8];
    let mut data_pos = descriptor_end;
    if has_global_color_table(packed) {
        let table_len = match color_table_len(packed) {
        Ok(v) => v,
        Err(e) => return Err(e),
    };
        if table_len > bytes.len() - data_pos {
            return Err(unexpected_eof(sat_add(data_pos, table_len), bytes.len()));
        }
        data_pos = data_pos + table_len;
    }
    if data_pos >= bytes.len() {
        return Err(unexpected_eof(sat_add(data_pos, 1), bytes.len()));
    }
    proof { lemma_gif_skip(bytes@, data_pos + 1); }
    skip_sub_blocks(bytes, data_pos + 1)
}

fn skip_sub_blocks(bytes: &[u8], start: usize) -> (r: Result<usize>)
    requires
        start <= bytes@.len(),
    ensures
        match r {
            Ok(n) => gif_skip(bytes@, start as int) == Ok::<int, Failure>(n as int),
            Err(e) => gif_skip(bytes@, start as int) == Err::<int, Failure>(failure(e)),
        },
{
    let mut pos = start;
    loop
        invariant
            pos <= bytes@.len(),
            gif_skip(bytes@, pos as int) == gif_skip(bytes@, start as int),
        decreases bytes@.len() - pos,
    {
        if pos >= bytes.len() {
            return Err(unexpected_eof(sat_add(pos, 1), bytes.len()));
        }
        let len = bytes[pos] as usize;
        if len == 0 {
            return Ok(pos + 1);
        }
        if len > bytes.len() - pos - 1 {
            return Err(unexpected_eof(sat_add(pos + 1, len), bytes.len()));
        }
        pos = pos + 1 + len;
    }
}

/// Whether the packed screen or image descriptor byte announces a colour table.
pub fn has_global_color_table(packed: u8) -> (r: bool)
    ensures
        r == (packed & 0x80 != 0),
{
    packed & 0x80 != 0
}

/// The byte length of the colour table the packed byte announces.
pub fn color_table_len(packed: u8) -> (r: Result<usize>)
    ensures
        r matches Ok(n) && n == gif_table_len(packed),
{
    let k = packed & 7;
    Ok(if k == 0 { 6 } else if k == 1 { 12 } else if k == 2 { 24 } else if k == 3 { 48 }
        else if k == 4 { 96 } else if k == 5 { 192 } else if k == 6 { 384 } else { 768 })
}

fn read_u16_le(bytes: &[u8], offset: usize) -> (r: Result<u16>)
    requires
        offset <= usize::MAX - 2,
    ensures
        read_outcome16(r) == read_result(bytes@, offset as int, 2, u16_le(bytes@, offset as int)),
{
    if offset + 2 > bytes.len() {
        return Err(unexpected_eof(offset + 2, bytes.len()));
    }
    Ok(le16(bytes, offset))
}

} // verus!
