use vstd::prelude::*;
use crate::bytes::{as_signed32, has_tag, le32, read_outcome32, read_outcome_i32, read_result, tag_at, to_i32, u32_le};
use crate::error::{eof, invalid_data, outcome, unexpected_eof, Failure, Result, RmpegError};
use crate::metadata::{probe_outcome, secs, video_stream, Probe, ProbeDocument, Seconds, StreamMetadata};
use crate::error::{join3, lossy_text, push_decimal};

verus! {

/// What the `strh` and `strf` chunks of a stream list have told so far; FourCCs are
/// held as little-endian codes.
#[derive(Debug, Clone, Copy, PartialEq, Eq)]
pub struct AviStreamBuilder {
    pub stream_type: Option<u32>,
    pub handler: Option<u32>,
    pub scale: Option<u32>,
    pub rate: Option<u32>,
    pub length: Option<u32>,
    pub width: Option<u32>,
    pub height: Option<u32>,
    pub bitmap_codec: Option<u32>,
}

/// A builder that knows nothing yet.
pub open spec fn empty_builder() -> AviStreamBuilder {
    AviStreamBuilder { stream_type: None, handler: None, scale: None, rate: None, length: None, width: None,
        height: None, bitmap_codec: None }
}

/// The little-endian code of the four bytes of `s`.
pub open spec fn code(s: Seq<u8>) -> int {
    u32_le(s, 0)
}

/// A byte in ASCII upper case.
pub open spec fn upper(c: u8) -> int {
    if 0x61 <= c <= 0x7a { c - 32 } else { c as int }
}

/// The FourCC at `p` of `d` in ASCII upper case, as a little-endian code.
pub open spec fn upper_code(d: Seq<u8>, p: int) -> int {
    upper(d[p]) + upper(d[p + 1]) * 0x100 + upper(d[p + 2]) * 0x1_0000 + upper(d[p + 3]) * 0x100_0000
}

/// The codec of a video FourCC this probe names: the Ut Video variants.
pub open spec fn spec_video_codec(c: int) -> Option<&'static str> {
    if c == code(seq![0x55u8, 0x4c, 0x52, 0x47]) || c == code(seq![0x55u8, 0x4c, 0x52, 0x41]) || c == code(seq![0x55u8, 0x4c, 0x48, 0x30]) || c == code(seq![0x55u8, 0x4c, 0x48, 0x32])
        || c == code(seq![0x55u8, 0x4c, 0x48, 0x34]) || c == code(seq![0x55u8, 0x4c, 0x59, 0x30]) || c == code(seq![0x55u8, 0x4c, 0x59, 0x32]) {
        Some("utvideo")
    } else {
        None
    }
}

/// A chunk header at `pos` inside `limit`: its id code, data start and data end.
pub open spec fn chunk_at(b: Seq<u8>, pos: int, limit: int) -> core::result::Result<(int, int, int), Failure> {
    let size = u32_le(b, pos + 4);
    if limit - pos < 8 {
        Err(eof(8, if limit > pos { limit - pos } else { 0 }))
    } else if pos + 8 + size > usize::MAX || pos + 8 + size > limit {
        Err(Failure::InvalidData)
    } else {
        Ok((code(b.subrange(pos, pos + 4)), pos + 8, pos + 8 + size))
    }
}

/// The builder after a `strh` chunk `d`: type, handler, scale, rate and length.
#[verifier::opaque]
pub open spec fn with_header(d: Seq<u8>, s: AviStreamBuilder) -> core::result::Result<AviStreamBuilder, Failure> {
    if d.len() < 56 {
        Err(eof(56, d.len() as int))
    } else {
        Ok(AviStreamBuilder {
            stream_type: Some(code(d) as u32),
            handler: Some(upper_code(d, 4) as u32),
            scale: Some(u32_le(d, 20) as u32),
            rate: Some(u32_le(d, 24) as u32),
            length: Some(u32_le(d, 32) as u32),
            ..s
        })
    }
}

/// The magnitude of a signed 32-bit value.
pub open spec fn abs32(v: int) -> int {
    if v < 0 { -v } else { v }
}

/// The builder after a `strf` chunk `d`: a bitmap header's size and codec.
#[verifier::opaque]
pub open spec fn with_format(d: Seq<u8>, s: AviStreamBuilder) -> core::result::Result<AviStreamBuilder, Failure> {
    if d.len() < 20 {
        Err(eof(20, d.len() as int))
    } else if u32_le(d, 0) < 16 {
        Err(Failure::InvalidData)
    } else {
        Ok(AviStreamBuilder {
            width: Some(abs32(as_signed32(u32_le(d, 4))) as u32),
            height: Some(abs32(as_signed32(u32_le(d, 8))) as u32),
            bitmap_codec: Some(upper_code(d, 16) as u32),
            ..s
        })
    }
}

/// The stream a finished builder describes: a video stream of a named codec with its
/// size, and a duration of `length * scale / rate` seconds when all three are known
/// and the rate is not zero.
#[verifier::opaque]
pub open spec fn spec_into_stream(s: AviStreamBuilder, index: int) -> Option<StreamMetadata> {
    let fourcc = if s.bitmap_codec is Some { s.bitmap_codec } else { s.handler };
    let duration = match (s.length, s.scale, s.rate) {
        (Some(l), Some(sc), Some(r)) => if r != 0 { Some(secs(l * sc, r as int)) } else { None },
        _ => None,
    };
    if s.stream_type != Some(code(seq![0x76u8, 0x69, 0x64, 0x73]) as u32) {
        None
    } else {
        match fourcc {
            None => None,
            Some(f) => match spec_video_codec(f as int) {
                None => None,
                Some(c) => match (s.width, s.height) {
                    (Some(w), Some(h)) => Some(video_stream(index, c, w as int, h as int, duration, None)),
                    _ => None,
                },
            },
        }
    }
}

/// The stream a stream list from `pos` to `end` describes, with `s` the builder so far;
/// a nested list that yields a stream gives that stream.
pub open spec fn stream_list(b: Seq<u8>, pos: int, end: int, index: int, s: AviStreamBuilder)
    -> core::result::Result<Option<StreamMetadata>, Failure>
    decreases end - pos,
{
    if pos < 0 || pos + 8 > end {
        Ok(spec_into_stream(s, index))
    } else {
        match chunk_at(b, pos, end) {
            Err(e) => Err(e),
            Ok((id, start, stop)) => {
                let next = stop + (stop - start) % 2;
                let step = if id == code(seq![0x73u8, 0x74, 0x72, 0x68]) {
                    match with_header(b.subrange(start, stop), s) { Err(e) => Err(e), Ok(t) => Ok((None, t)) }
                } else if id == code(seq![0x73u8, 0x74, 0x72, 0x66]) {
                    match with_format(b.subrange(start, stop), s) { Err(e) => Err(e), Ok(t) => Ok((None, t)) }
                } else if id == code(seq![0x4cu8, 0x49, 0x53, 0x54]) && start + 4 <= stop {
                    match stream_list(b, start + 4, stop, index, empty_builder()) {
                        Err(e) => Err(e),
                        Ok(found) => Ok((found, s)),
                    }
                } else {
                    Ok((None, s))
                };
                match step {
                    Err(e) => Err(e),
                    Ok((Some(found), _)) => Ok(Some(found)),
                    Ok((None, t)) => if next > end { Ok(spec_into_stream(t, index)) } else { stream_list(b, next, end, index, t) },
                }
            },
        }
    }
}

/// The streams found walking the chunks from `pos` to `end` after `streams`: each
/// `strl` list adds the stream it describes, other lists are walked into.
pub open spec fn avi_walk(b: Seq<u8>, pos: int, end: int, streams: Seq<StreamMetadata>)
    -> core::result::Result<Seq<StreamMetadata>, Failure>
    decreases end - pos,
{
    if pos < 0 || pos + 8 > end {
        Ok(streams)
    } else {
        match chunk_at(b, pos, end) {
            Err(e) => Err(e),
            Ok((id, start, stop)) => {
                let next = stop + (stop - start) % 2;
                let step = if id == code(seq![0x4cu8, 0x49, 0x53, 0x54]) && start + 4 <= stop {
                    if has_tag(b, start, seq![0x73u8, 0x74, 0x72, 0x6c]) {
                        match stream_list(b, start + 4, stop, streams.len() as int, empty_builder()) {
                            Err(e) => Err(e),
                            Ok(None) => Ok(streams),
                            Ok(Some(found)) => Ok(streams.push(found)),
                        }
                    } else {
                        avi_walk(b, start + 4, stop, streams)
                    }
                } else {
                    Ok(streams)
                };
                match step {
                    Err(e) => Err(e),
                    Ok(t) => if next > end { Ok(t) } else { avi_walk(b, next, end, t) },
                }
            },
        }
    }
}

/// Whether `b` starts with a RIFF header of form `AVI `.
pub open spec fn spec_looks_like_avi(b: Seq<u8>) -> bool {
    b.len() >= 12 && has_tag(b, 0, seq![0x52u8, 0x49, 0x46, 0x46]) && has_tag(b, 8, seq![0x41u8, 0x56, 0x49, 0x20])
}

/// The probe of an AVI file: the video streams of its stream lists, in order.
pub open spec fn spec_parse_avi(b: Seq<u8>) -> core::result::Result<Probe, Failure> {
    if !spec_looks_like_avi(b) {
        Err(Failure::InvalidData)
    } else {
        match avi_walk(b, 12, b.len() as int, Seq::empty()) {
            Err(e) => Err(e),
            Ok(s) => if s.len() == 0 { Err(Failure::InvalidData) } else { Ok(Probe { format: "avi", streams: s }) },
        }
    }
}

/// Whether `bytes` starts with an AVI RIFF header.
pub fn looks_like_avi(bytes: &[u8]) -> (r: bool)
    ensures
        r == spec_looks_like_avi(bytes@),
{
    bytes.len() >= 12 && tag_at(bytes, 0, &[0x52u8, 0x49, 0x46, 0x46]) && tag_at(bytes, 8, &[0x41u8, 0x56, 0x49, 0x20])
}

/// A byte in ASCII upper case.
fn upper_byte(c: u8) -> (r: u32)
    ensures
        r == upper(c),
{
    if 0x61 <= c && c <= 0x7a { (c - 32) as u32 } else { c as u32 }
}

/// The FourCC at `p` in ASCII upper case, as a little-endian code.
fn normalize_fourcc(d: &[u8], p: usize) -> (r: u32)
    requires
        p + 4 <= d@.len(),
    ensures
        r == upper_code(d@, p as int),
{
    upper_byte(d[p]) + upper_byte(d[p + 1]) * 0x100 + upper_byte(d[p + 2]) * 0x1_0000 + upper_byte(d[p + 3]) * 0x100_0000
}

/// The codec of a video FourCC code.
fn video_codec_name(c: u32) -> (r: Option<&'static str>)
    ensures
        r == spec_video_codec(c as int),
{
    if c == le32(&[0x55u8, 0x4c, 0x52, 0x47], 0) || c == le32(&[0x55u8, 0x4c, 0x52, 0x41], 0) || c == le32(&[0x55u8, 0x4c, 0x48, 0x30], 0) || c == le32(&[0x55u8, 0x4c, 0x48, 0x32], 0)
        || c == le32(&[0x55u8, 0x4c, 0x48, 0x34], 0) || c == le32(&[0x55u8, 0x4c, 0x59, 0x30], 0) || c == le32(&[0x55u8, 0x4c, 0x59, 0x32], 0) {
        Some("utvideo")
    } else {
        None
    }
}

/// Reads the chunk header at `pos` inside `limit`.
fn read_chunk(bytes: &[u8], pos: usize, limit: usize) -> (r: Result<(u32, usize, usize)>)
    requires
        limit <= bytes@.len(),
    ensures
        match chunk_at(bytes@, pos as int, limit as int) {
            Ok((id, start, stop)) => r == Ok::<(u32, usize, usize), RmpegError>((id as u32, start as usize, stop as usize)),
            Err(e) => outcome(r) == Err::<(u32, usize, usize), Failure>(e),
        },
{
    if limit < pos || limit - pos < 8 {
        let rem: usize = if limit > pos { limit - pos } else { 0 };
        return Err(unexpected_eof(8, rem));
    }
    let size = match read_u32(bytes, pos + 4) { Ok(v) => v, Err(e) => return Err(e) } as usize;
    let start = pos + 8;
    if size > usize::MAX - start {
        return Err(invalid_data("AVI chunk size overflow"));
    }
    let stop = start + size;
    if stop > limit {
        let mut m = join3("invalid AVI chunk ", lossy_text(&bytes[pos..pos + 4]).as_str(), " size ");
        push_decimal(&mut m, size as u64);
        return Err(RmpegError::InvalidData(m));
    }
    assert(code(bytes@.subrange(pos as int, pos + 4)) == u32_le(bytes@, pos as int));
    Ok((le32(bytes, pos), start, stop))
}

/// Reads a `strh` chunk into the builder.
fn parse_stream_header(data: &[u8], stream: &mut AviStreamBuilder) -> (r: Result<()>)
    ensures
        match with_header(data@, *old(stream)) {
            Ok(t) => r is Ok && *final(stream) == t,
            Err(e) => outcome(r) == Err::<(), Failure>(e),
        },
{
    proof {
        reveal(with_header);
    }
    if data.len() < 56 {
        return Err(unexpected_eof(56, data.len()));
    }
    stream.stream_type = Some(le32(data, 0));
    stream.handler = Some(normalize_fourcc(data, 4));
    stream.scale = Some(le32(data, 20));
    stream.rate = Some(le32(data, 24));
    stream.length = Some(le32(data, 32));
    Ok(())
}

/// Reads a `strf` chunk into the builder.
fn parse_stream_format(data: &[u8], stream: &mut AviStreamBuilder) -> (r: Result<()>)
    ensures
        match with_format(data@, *old(stream)) {
            Ok(t) => r is Ok && *final(stream) == t,
            Err(e) => outcome(r) == Err::<(), Failure>(e),
        },
{
    proof {
        reveal(with_format);
    }
    if data.len() < 20 {
        return Err(unexpected_eof(20, data.len()));
    }
    if le32(data, 0) < 16 {
        return Err(invalid_data("AVI bitmap header is too small"));
    }
    let width = match read_i32(data, 4) { Ok(v) => v, Err(e) => return Err(e) };
    let height = match read_i32(data, 8) { Ok(v) => v, Err(e) => return Err(e) };
    stream.width = Some(unsigned_abs(width));
    stream.height = Some(unsigned_abs(height));
    stream.bitmap_codec = Some(normalize_fourcc(data, 16));
    Ok(())
}

/// The magnitude of a signed 32-bit value.
fn unsigned_abs(v: i32) -> (r: u32)
    ensures
        r == abs32(v as int),
{
    if v < 0 {
        if v == i32::MIN { 0x8000_0000 } else { (-v) as u32 }
    } else {
        v as u32
    }
}

impl AviStreamBuilder {
    /// A builder that knows nothing yet.
    pub fn empty() -> (s: Self)
        ensures
            s == empty_builder(),
    {
        AviStreamBuilder { stream_type: None, handler: None, scale: None, rate: None, length: None, width: None,
            height: None, bitmap_codec: None }
    }

    /// The stream this builder describes, as stream `index`.
    pub fn into_stream(self, index: usize) -> (r: Option<StreamMetadata>)
        ensures
            r == spec_into_stream(self, index as int),
    {
        proof {
            reveal(spec_into_stream);
        }
        let stream_type = match self.stream_type { Some(t) => t, None => return None };
        if stream_type != le32(&[0x76u8, 0x69, 0x64, 0x73], 0) {
            return None;
        }
        let fourcc = match (if self.bitmap_codec.is_some() { self.bitmap_codec } else { self.handler }) {
            Some(f) => f,
            None => return None,
        };
        let codec = match video_codec_name(fourcc) { Some(c) => c, None => return None };
        let duration = match (self.length, self.scale, self.rate) {
            (Some(l), Some(sc), Some(r)) => if r != 0 {
                assert((l as u128) * (sc as u128) <= 0xffff_ffff_ffff_ffff_ffff_ffff_ffff_ffffu128) by (nonlinear_arith)
                    requires
                        l <= 0xffff_ffffu32,
                        sc <= 0xffff_ffffu32,
                ;
                Some(Seconds { num: (l as u128) * (sc as u128), den: r as u128 })
            } else {
                None
            },
            _ => None,
        };
        let width = match self.width { Some(w) => w, None => return None };
        let height = match self.height { Some(h) => h, None => return None };
        Some(StreamMetadata::video(index, codec, width, height, duration, None))
    }
}

/// Reads a stream list from `pos` to `end`.
fn parse_stream_list(bytes: &[u8], pos: usize, end: usize, index: usize) -> (r: Result<Option<StreamMetadata>>)
    requires
        end <= bytes@.len(),
    ensures
        match stream_list(bytes@, pos as int, end as int, index as int, empty_builder()) {
            Ok(found) => r == Ok::<Option<StreamMetadata>, RmpegError>(found),
            Err(e) => outcome(r) == Err::<Option<StreamMetadata>, Failure>(e),
        },
    decreases end - pos,
{
    let mut stream = AviStreamBuilder::empty();
    let mut p = pos;
    while p <= end && end - p >= 8
        invariant
            end <= bytes@.len(),
            pos <= p,
            stream_list(bytes@, pos as int, end as int, index as int, empty_builder())
                == stream_list(bytes@, p as int, end as int, index as int, stream),
        decreases end + 1 - p,
    {
        let (id, start, stop) = match read_chunk(bytes, p, end) { Ok(c) => c, Err(e) => return Err(e) };
        if id == le32(&[0x73u8, 0x74, 0x72, 0x68], 0) {
            match parse_stream_header(&bytes[start..stop], &mut stream) { Ok(()) => {}, Err(e) => return Err(e) }
        } else if id == le32(&[0x73u8, 0x74, 0x72, 0x66], 0) {
            match parse_stream_format(&bytes[start..stop], &mut stream) { Ok(()) => {}, Err(e) => return Err(e) }
        } else if id == le32(&[0x4cu8, 0x49, 0x53, 0x54], 0) && stop - start >= 4 {
            match parse_stream_list(bytes, start + 4, stop, index) {
                Ok(Some(nested)) => return Ok(Some(nested)),
                Ok(None) => {},
                Err(e) => return Err(e),
            }
        }
        let pad = (stop - start) % 2;
        if pad > usize::MAX - stop {
            return Ok(stream.into_stream(index));
        }
        p = stop + pad;
    }
    Ok(stream.into_stream(index))
}

/// Walks the chunks from `pos` to `end`, adding the streams of `strl` lists.
fn parse_chunks(bytes: &[u8], pos: usize, end: usize, streams: &mut Vec<StreamMetadata>) -> (r: Result<()>)
    requires
        end <= bytes@.len(),
    ensures
        match avi_walk(bytes@, pos as int, end as int, old(streams)@) {
            Ok(s) => r is Ok && final(streams)@ == s,
            Err(e) => outcome(r) == Err::<(), Failure>(e),
        },
    decreases end - pos,
{
    let mut p = pos;
    while p <= end && end - p >= 8
        invariant
            end <= bytes@.len(),
            pos <= p,
            avi_walk(bytes@, pos as int, end as int, old(streams)@) == avi_walk(bytes@, p as int, end as int, streams@),
        decreases end + 1 - p,
    {
        let (id, start, stop) = match read_chunk(bytes, p, end) { Ok(c) => c, Err(e) => return Err(e) };
        if id == le32(&[0x4cu8, 0x49, 0x53, 0x54], 0) && stop - start >= 4 {
            if tag_at(bytes, start, &[0x73u8, 0x74, 0x72, 0x6c]) {
                match parse_stream_list(bytes, start + 4, stop, streams.len()) {
                    Ok(Some(found)) => streams.push(found),
                    Ok(None) => {},
                    Err(e) => return Err(e),
                }
            } else {
                match parse_chunks(bytes, start + 4, stop, streams) { Ok(()) => {}, Err(e) => return Err(e) }
            }
        }
        let pad = (stop - start) % 2;
        if pad > usize::MAX - stop {
            return Ok(());
        }
        p = stop + pad;
    }
    Ok(())
}

/// Probes an AVI file.
pub fn parse_avi(bytes: &[u8]) -> (r: Result<ProbeDocument>)
    ensures
        probe_outcome(r) == spec_parse_avi(bytes@),
{
    if !looks_like_avi(bytes) {
        return Err(invalid_data("missing AVI RIFF header"));
    }
    let mut streams: Vec<StreamMetadata> = Vec::new();
    match parse_chunks(bytes, 12, bytes.len(), &mut streams) { Ok(()) => {}, Err(e) => return Err(e) }
    if streams.len() == 0 {
        return Err(invalid_data("AVI file has no supported streams"));
    }
    Ok(ProbeDocument { format: "avi", streams })
}

fn read_u32(bytes: &[u8], offset: usize) -> (r: Result<u32>)
    requires
        offset <= usize::MAX - 4,
    ensures
        read_outcome32(r) == read_result(bytes@, offset as int, 4, u32_le(bytes@, offset as int)),
{
    if offset + 4 > bytes.len() {
        return Err(unexpected_eof(offset + 4, bytes.len()));
    }
    Ok(le32(bytes, offset))
}

fn read_i32(bytes: &[u8], offset: usize) -> (r: Result<i32>)
    requires
        offset <= usize::MAX - 4,
    ensures
        read_outcome_i32(r) == read_result(bytes@, offset as int, 4, as_signed32(u32_le(bytes@, offset as int))),
{
    if offset + 4 > bytes.len() {
        return Err(unexpected_eof(offset + 4, bytes.len()));
    }
    Ok(to_i32(le32(bytes, offset)))
}

} // verus!
