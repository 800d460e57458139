use vstd::prelude::*;
use crate::bytes::{as_signed32, sat, sat_add, has_tag, le32, read_outcome32, read_outcome_i32, read_result, tag_at, to_i32, u32_le};
use crate::error::{eof, failure, invalid_data, unexpected_eof, unsupported, Failure, Result, RmpegError};
use crate::metadata::{probe_outcome, video_stream, zero_secs, zero_seconds, Probe, ProbeDocument, StreamMetadata};
use crate::error::with_number;

verus! {

/// Image dimensions.
pub struct Dimensions {
    pub width: u32,
    pub height: u32,
}

/// The first position at or after `start` that holds a zero byte.
pub open spec fn first_nul(b: Seq<u8>, start: int) -> Option<int>
    decreases b.len() - start,
{
    if start < 0 || start >= b.len() {
        None
    } else if b[start] == 0 {
        Some(start)
    } else {
        first_nul(b, start + 1)
    }
}

/// A found zero byte lies at or after the start and inside the input.
pub proof fn lemma_first_nul(b: Seq<u8>, start: int)
    ensures
        first_nul(b, start) matches Some(e) ==> start <= e < b.len() && b[e] == 0,
    decreases b.len() - start,
{
    if 0 <= start < b.len() && b[start] != 0 {
        lemma_first_nul(b, start + 1);
    }
}

/// The dimensions of the `box2i` window stored at `p`: max minus min plus one.
pub open spec fn exr_box(b: Seq<u8>, p: int) -> core::result::Result<(int, int), Failure> {
    let min_x = as_signed32(u32_le(b, p));
    let min_y = as_signed32(u32_le(b, p + 4));
    let max_x = as_signed32(u32_le(b, p + 8));
    let max_y = as_signed32(u32_le(b, p + 12));
    if max_x < min_x || max_y < min_y {
        Err(Failure::InvalidData)
    } else if max_x - min_x + 1 > u32::MAX || max_y - min_y + 1 > u32::MAX {
        Err(Failure::InvalidData)
    } else {
        Ok((max_x - min_x + 1, max_y - min_y + 1))
    }
}

/// The windows found walking the header attributes from `pos`: (dataWindow, displayWindow).
pub open spec fn exr_walk(b: Seq<u8>, pos: int, data: Option<(int, int)>, disp: Option<(int, int)>)
    -> core::result::Result<(Option<(int, int)>, Option<(int, int)>), Failure>
    decreases b.len() - pos,
{
    if pos < 8 || pos >= b.len() {
        Ok((data, disp))
    } else {
        proof {
            lemma_first_nul(b, pos);
            if let Some(e) = first_nul(b, pos) {
                lemma_first_nul(b, e + 1);
            }
        }
        match first_nul(b, pos) {
            None => Err(eof(sat(b.len() as int + 1), b.len() as int)),
            Some(name_end) => if name_end == pos {
                Ok((data, disp))
            } else {
                match first_nul(b, name_end + 1) {
                    None => Err(eof(sat(b.len() as int + 1), b.len() as int)),
                    Some(type_end) => {
                        let vpos = type_end + 1;
                        let size = u32_le(b, vpos);
                        let name = b.subrange(pos, name_end);
                        let is_data = name == seq![0x64u8, 0x61, 0x74, 0x61, 0x57, 0x69, 0x6e, 0x64, 0x6f, 0x77];
                        let is_disp = name == seq![0x64u8, 0x69, 0x73, 0x70, 0x6c, 0x61, 0x79, 0x57, 0x69, 0x6e, 0x64, 0x6f, 0x77];
                        if vpos + 4 > b.len() {
                            Err(eof(sat(vpos + 4), b.len() as int))
                        } else if vpos + 4 + size > usize::MAX {
                            Err(Failure::InvalidData)
                        } else if vpos + 4 + size > b.len() {
                            Err(eof(vpos + 4 + size, b.len() as int))
                        } else if (is_data || is_disp) && b.subrange(name_end + 1, type_end) != seq![0x62u8, 0x6f, 0x78, 0x32, 0x69] {
                            Err(Failure::InvalidData)
                        } else if (is_data || is_disp) && size != 16 {
                            Err(Failure::InvalidData)
                        } else if is_data || is_disp {
                            match exr_box(b, vpos + 4) {
                                Err(e) => Err(e),
                                Ok(d) => exr_walk(b, vpos + 4 + size,
                                    if is_disp { data } else { Some(d) }, if is_disp { Some(d) } else { disp }),
                            }
                        } else {
                            exr_walk(b, vpos + 4 + size, data, disp)
                        }
                    },
                }
            },
        }
    }
}

/// The probe of an OpenEXR image: the display window, else the data window.
pub open spec fn spec_parse_exr(b: Seq<u8>) -> core::result::Result<Probe, Failure> {
    if b.len() < 8 {
        Err(eof(8, b.len() as int))
    } else if !has_tag(b, 0, seq![0x76u8, 0x2f, 0x31, 0x01]) || b[4] != 2 {
        Err(Failure::InvalidData)
    } else {
        match exr_walk(b, 8, None, None) {
            Err(e) => Err(e),
            Ok(w) => {
                let dims = if w.1 is Some { w.1 } else { w.0 };
                match dims {
                    None => Err(Failure::InvalidData),
                    Some(d) => Ok(Probe {
                        format: "exr_pipe",
                        streams: seq![video_stream(0, "exr", d.0, d.1, Some(zero_secs()), None)],
                    }),
                }
            },
        }
    }
}

/// Probes an OpenEXR image.
pub fn parse_exr(bytes: &[u8]) -> (r: Result<ProbeDocument>)
    ensures
        probe_outcome(r) == spec_parse_exr(bytes@),
{
    if bytes.len() < 8 {
        return Err(unexpected_eof(8, bytes.len()));
    }
    if !looks_like_exr(bytes) {
        return Err(invalid_data("missing OpenEXR signature"));
    }
    if bytes[4] != 2 {
        return Err(RmpegError::InvalidData(with_number("unsupported OpenEXR version ", bytes[4] as u64)));
    }
    let dimensions = match parse_dimensions(bytes) {
        Ok(v) => v,
        Err(e) => return Err(e),
    };
    Ok(ProbeDocument::single(
        "exr_pipe",
        StreamMetadata::video(0, "exr", dimensions.width, dimensions.height, Some(zero_seconds()), None),
    ))
}

/// Whether `bytes` starts with the OpenEXR magic 76 2f 31 01.
pub fn looks_like_exr(bytes: &[u8]) -> (r: bool)
    ensures
        r == (bytes@.len() >= 4 && has_tag(bytes@, 0, seq![0x76u8, 0x2f, 0x31, 0x01])),
{
    bytes.len() >= 4 && tag_at(bytes, 0, &[0x76u8, 0x2f, 0x31, 0x01])
}

/// The dimensions a window option holds, as integers.
pub open spec fn dims_view(o: Option<Dimensions>) -> Option<(int, int)> {
    match o {
        Some(d) => Some((d.width as int, d.height as int)),
        None => None,
    }
}

fn parse_dimensions(bytes: &[u8]) -> (r: Result<Dimensions>)
    requires
        bytes@.len() >= 8,
    ensures
        match r {
            Ok(d) => exr_walk(bytes@, 8, None, None) matches Ok(w) && (if w.1 is Some { w.1 } else { w.0 })
                == Some((d.width as int, d.height as int)),
            Err(e) => match exr_walk(bytes@, 8, None, None) {
                Err(f) => f == failure(e),
                Ok(w) => w.0 is None && w.1 is None && e is InvalidData,
            },
        },
{
    let mut pos: usize = 8;
    let mut data_window: Option<Dimensions> = None;
    let mut display_window: Option<Dimensions> = None;
    while pos < bytes.len()
        invariant_except_break
            exr_walk(bytes@, 8, None, None) == exr_walk(bytes@, pos as int, dims_view(data_window),
                dims_view(display_window)),
        invariant
            8 <= pos,
        ensures
            exr_walk(bytes@, 8, None, None) == Ok::<(Option<(int, int)>, Option<(int, int)>), Failure>(
                (dims_view(data_window), dims_view(display_window))),
        decreases bytes.len() - pos,
    {
        match match read_attribute(bytes, pos, &mut data_window, &mut display_window) {
        Ok(v) => v,
        Err(e) => return Err(e),
    } {
            Some(next) => pos = next,
            None => break,
        }
    }
    match display_window {
        Some(d) => Ok(d),
        None => match data_window {
            Some(d) => Ok(d),
            None => Err(invalid_data("missing OpenEXR displayWindow or dataWindow")),
        },
    }
}

/// Reads the header attribute at `pos`, recording the windows it sets; `None` at the
/// empty name that ends the header, else the position after the attribute.
fn read_attribute(
    bytes: &[u8],
    pos: usize,
    data_window: &mut Option<Dimensions>,
    display_window: &mut Option<Dimensions>,
) -> (r: Result<Option<usize>>)
    requires
        8 <= pos < bytes@.len(),
    ensures
        match r {
            Ok(Some(next)) => pos < next <= bytes@.len() && exr_walk(bytes@, pos as int,
                dims_view(*old(data_window)), dims_view(*old(display_window)))
                == exr_walk(bytes@, next as int, dims_view(*final(data_window)), dims_view(*final(display_window))),
            Ok(None) => exr_walk(bytes@, pos as int, dims_view(*old(data_window)), dims_view(*old(display_window)))
                == Ok::<(Option<(int, int)>, Option<(int, int)>), Failure>((dims_view(*old(data_window)),
                dims_view(*old(display_window)))) && *final(data_window) == *old(data_window)
                && *final(display_window) == *old(display_window),
            Err(e) => exr_walk(bytes@, pos as int, dims_view(*old(data_window)), dims_view(*old(display_window)))
                == Err::<(Option<(int, int)>, Option<(int, int)>), Failure>(failure(e)),
        },
{
    let name_end = match find_nul(bytes, pos) {
        Ok(v) => v,
        Err(e) => return Err(e),
    };
    if name_end == pos {
        return Ok(None);
    }
    let type_start = name_end + 1;
    let type_end = match find_nul(bytes, type_start) {
        Ok(v) => v,
        Err(e) => return Err(e),
    };
    let vpos = type_end + 1;
    if bytes.len() - vpos < 4 {
        return Err(unexpected_eof(sat_add(vpos, 4), bytes.len()));
    }
    let value_size = match read_u32_le(bytes, vpos) {
        Ok(v) => v,
        Err(e) => return Err(e),
    } as usize;
    let value_start = vpos + 4;
    if value_size > usize::MAX - value_start {
        return Err(invalid_data("OpenEXR attribute too large"));
    }
    let value_end = value_start + value_size;
    if value_end > bytes.len() {
        return Err(unexpected_eof(value_end, bytes.len()));
    }
    let name_len = name_end - pos;
    let is_data = name_len == 10 && tag_at(bytes, pos, &[0x64u8, 0x61, 0x74, 0x61, 0x57, 0x69, 0x6e, 0x64, 0x6f, 0x77]);
    let is_disp = name_len == 13 && tag_at(bytes, pos, &[0x64u8, 0x69, 0x73, 0x70, 0x6c, 0x61, 0x79, 0x57, 0x69, 0x6e, 0x64, 0x6f, 0x77]);
    proof {
        assert(is_data == (bytes@.subrange(pos as int, name_end as int) == seq![0x64u8, 0x61, 0x74, 0x61, 0x57, 0x69, 0x6e, 0x64, 0x6f, 0x77])) by {
            if bytes@.subrange(pos as int, name_end as int) == seq![0x64u8, 0x61, 0x74, 0x61, 0x57, 0x69, 0x6e, 0x64, 0x6f, 0x77] {
                assert(bytes@.subrange(pos as int, pos + 10) =~= bytes@.subrange(pos as int, name_end as int));
            }
            if is_data {
                assert(bytes@.subrange(pos as int, pos + 10) =~= bytes@.subrange(pos as int, name_end as int));
            }
        }
        assert(is_disp == (bytes@.subrange(pos as int, name_end as int) == seq![0x64u8, 0x69, 0x73, 0x70, 0x6c, 0x61, 0x79, 0x57, 0x69, 0x6e, 0x64, 0x6f, 0x77])) by {
            if bytes@.subrange(pos as int, name_end as int) == seq![0x64u8, 0x69, 0x73, 0x70, 0x6c, 0x61, 0x79, 0x57, 0x69, 0x6e, 0x64, 0x6f, 0x77] {
                assert(bytes@.subrange(pos as int, pos + 13) =~= bytes@.subrange(pos as int, name_end as int));
            }
            if is_disp {
                assert(bytes@.subrange(pos as int, pos + 13) =~= bytes@.subrange(pos as int, name_end as int));
            }
        }
    }
    if is_data || is_disp {
        let type_len = type_end - type_start;
        let is_box = type_len == 5 && tag_at(bytes, type_start, &[0x62u8, 0x6f, 0x78, 0x32, 0x69]);
        proof {
            assert(is_box == (bytes@.subrange(type_start as int, type_end as int) == seq![0x62u8, 0x6f, 0x78, 0x32, 0x69])) by {
                if bytes@.subrange(type_start as int, type_end as int) == seq![0x62u8, 0x6f, 0x78, 0x32, 0x69] {
                    assert(bytes@.subrange(type_start as int, type_start + 5)
                        =~= bytes@.subrange(type_start as int, type_end as int));
                }
                if is_box {
                    assert(bytes@.subrange(type_start as int, type_start + 5)
                        =~= bytes@.subrange(type_start as int, type_end as int));
                }
            }
        }
        if !is_box {
            return Err(invalid_data("OpenEXR window is not box2i"));
        }
        if value_size != 16 {
            return Err(invalid_data("OpenEXR window has invalid size"));
        }
        let dimensions = match dimensions_from_box2i(bytes, value_start) {
        Ok(v) => v,
        Err(e) => return Err(e),
    };
        if is_disp {
            *display_window = Some(dimensions);
        } else {
            *data_window = Some(dimensions);
        }
    }
    Ok(Some(value_end))
}

fn dimensions_from_box2i(bytes: &[u8], pos: usize) -> (r: Result<Dimensions>)
    requires
        pos + 16 <= bytes.len(),
    ensures
        match r {
            Ok(d) => exr_box(bytes@, pos as int) == Ok::<(int, int), Failure>((d.width as int, d.height as int)),
            Err(e) => exr_box(bytes@, pos as int) == Err::<(int, int), Failure>(failure(e)),
        },
{
    let min_x = match read_i32_le(bytes, pos) {
        Ok(v) => v,
        Err(e) => return Err(e),
    } as i64;
    let min_y = match read_i32_le(bytes, pos + 4) {
        Ok(v) => v,
        Err(e) => return Err(e),
    } as i64;
    let max_x = match read_i32_le(bytes, pos + 8) {
        Ok(v) => v,
        Err(e) => return Err(e),
    } as i64;
    let max_y = match read_i32_le(bytes, pos + 12) {
        Ok(v) => v,
        Err(e) => return Err(e),
    } as i64;
    if max_x < min_x || max_y < min_y {
        return Err(invalid_data("OpenEXR dataWindow is inverted"));
    }
    let width = max_x - min_x + 1;
    let height = max_y - min_y + 1;
    if width > u32::MAX as i64 {
        return Err(invalid_data("OpenEXR width overflow"));
    }
    if height > u32::MAX as i64 {
        return Err(invalid_data("OpenEXR height overflow"));
    }
    if width == 0 || height == 0 {
        return Err(invalid_data("OpenEXR dimensions must be nonzero"));
    }
    Ok(Dimensions { width: width as u32, height: height as u32 })
}

fn find_nul(bytes: &[u8], start: usize) -> (r: Result<usize>)
    requires
        start <= bytes@.len(),
    ensures
        match r {
            Ok(p) => first_nul(bytes@, start as int) == Some(p as int) && start <= p < bytes.len(),
            Err(e) => first_nul(bytes@, start as int) is None && failure(e) == eof(sat(bytes@.len() as int + 1), bytes@.len() as int),
        },
{
    let mut i = start;
    while i < bytes.len()
        invariant
            start <= i <= bytes@.len(),
            first_nul(bytes@, start as int) == first_nul(bytes@, i as int),
        decreases bytes@.len() - i,
    {
        if bytes[i] == 0 {
            proof { lemma_first_nul(bytes@, start as int); }
            return Ok(i);
        }
        i += 1;
    }
    Err(unexpected_eof(sat_add(bytes.len(), 1), bytes.len()))
}

fn read_i32_le(bytes: &[u8], offset: usize) -> (r: Result<i32>)
    requires
        offset <= usize::MAX - 4,
    ensures
        read_outcome_i32(r) == read_result(bytes@, offset as int, 4, as_signed32(u32_le(bytes@, offset as int))),
{
    if offset + 4 > bytes.len() {
        return Err(unexpected_eof(offset + 4, bytes.len()));
    }
    Ok(to_i32(le32(bytes, offset)))
}

fn read_u32_le(bytes: &[u8], offset: usize) -> (r: Result<u32>)
    requires
        offset <= usize::MAX - 4,
    ensures
        read_outcome32(r) == read_result(bytes@, offset as int, 4, u32_le(bytes@, offset as int)),
{
    if offset + 4 > bytes.len() {
        return Err(unexpected_eof(offset + 4, bytes.len()));
    }
    Ok(le32(bytes, offset))
}

} // verus!
