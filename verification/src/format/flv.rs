use vstd::prelude::*;
use crate::bytes::{be16, be32, has_tag, read_outcome16, read_outcome32, read_result, tag_at, u16_be, u32_be};
use crate::error::{eof, invalid_data, outcome, unexpected_eof, Failure, Result, RmpegError};
use crate::metadata::{audio_stream, probe_outcome, video_stream, zero_secs, zero_seconds, Probe, ProbeDocument, StreamMetadata};
use crate::format::aac::{parse_audio_specific_config, spec_asc, AacAudioConfig};
use crate::format::h264::{parse_h264_annex_b, spec_parse_h264_annex_b};

verus! {

/// `v`, or zero when it is missing.
pub open spec fn or_zero(v: Option<int>) -> int {
    match v { Some(x) => x, None => 0 }
}

/// The stream an AAC sequence header tag `d` describes.
#[verifier::opaque]
pub open spec fn spec_aac_tag(d: Seq<u8>, index: int) -> core::result::Result<Option<StreamMetadata>, Failure> {
    if d.len() < 4 || d[0] / 16 != 10 || d[1] != 0 {
        Ok(None)
    } else {
        match spec_asc(d.subrange(2, d.len() as int)) {
            None => Err(Failure::InvalidData),
            Some(c) => Ok(Some(audio_stream(index, c.codec_name,
                match c.sample_rate { Some(x) => x as int, None => 0 },
                match c.channels { Some(x) => x as int, None => 0 },
                match c.bits_per_sample { Some(x) => x as int, None => 0 }, zero_secs()))),
        }
    }
}

/// The stream an audio tag `d` describes: AAC by its sequence header, Nellymoser by
/// its rate and channel bits.
#[verifier::opaque]
pub open spec fn spec_audio_tag(d: Seq<u8>, index: int) -> core::result::Result<Option<StreamMetadata>, Failure> {
    if d.len() == 0 {
        Ok(None)
    } else if d[0] / 16 == 10 {
        spec_aac_tag(d, index)
    } else if d[0] / 16 == 6 {
        let code = (d[0] / 4) % 4;
        let rate = if code == 0 { 5500int } else if code == 1 { 11025int } else if code == 2 { 22050int } else { 44100int };
        Ok(Some(audio_stream(index, "nellymoser", rate, if d[0] % 2 == 1 { 2 } else { 1 }, 0, zero_secs())))
    } else {
        Ok(None)
    }
}

/// The first SPS of an AVCDecoderConfigurationRecord `c`, as a range of `c`.
pub open spec fn spec_first_avc_sps(c: Seq<u8>) -> core::result::Result<(int, int), Failure> {
    if c.len() < 7 || c[0] != 1 || c[5] % 32 == 0 {
        Err(Failure::InvalidData)
    } else if c.len() < 8 {
        Err(eof(8, c.len() as int))
    } else if 8 + u16_be(c, 6) > c.len() {
        Err(eof(8 + u16_be(c, 6), c.len() as int))
    } else {
        Ok((8, 8 + u16_be(c, 6)))
    }
}

/// The stream an AVC sequence header tag `d` describes: the size of its first SPS.
#[verifier::opaque]
pub open spec fn spec_h264_tag(d: Seq<u8>, index: int) -> core::result::Result<Option<StreamMetadata>, Failure> {
    if d.len() < 11 || d[0] % 16 != 7 || d[1] != 0 {
        Ok(None)
    } else {
        let config = d.subrange(5, d.len() as int);
        match spec_first_avc_sps(config) {
            Err(e) => Err(e),
            Ok((s, e)) => match spec_parse_h264_annex_b(seq![0x00u8, 0x00, 0x00, 0x01] + config.subrange(s, e)) {
                Err(err) => Err(err),
                Ok(doc) => Ok(Some(video_stream(index, "h264",
                    match doc.streams[0].width { Some(w) => w as int, None => 0 },
                    match doc.streams[0].height { Some(h) => h as int, None => 0 }, Some(zero_secs()), None))),
            },
        }
    }
}

/// The streams found walking the tags from `pos`: the first audio and the first AVC
/// sequence header that describe a stream, in the order they come.
pub open spec fn flv_walk(b: Seq<u8>, pos: int, streams: Seq<StreamMetadata>, saw_video: bool, saw_audio: bool)
    -> core::result::Result<Seq<StreamMetadata>, Failure>
    decreases b.len() - pos,
{
    let size = b[pos + 1] * 0x1_0000 + b[pos + 2] * 0x100 + b[pos + 3];
    let start = pos + 11;
    let end = start + size;
    if pos < 0 || pos + 11 > b.len() {
        Ok(streams)
    } else if end > usize::MAX {
        Err(Failure::InvalidData)
    } else if end > b.len() {
        Ok(streams)
    } else {
        let data = b.subrange(start, end);
        let step = if b[pos] == 8 && !saw_audio {
            match spec_audio_tag(data, streams.len() as int) {
                Err(e) => Err(e),
                Ok(None) => Ok((streams, saw_video, saw_audio)),
                Ok(Some(s)) => Ok((streams.push(s), saw_video, true)),
            }
        } else if b[pos] == 9 && !saw_video {
            match spec_h264_tag(data, streams.len() as int) {
                Err(e) => Err(e),
                Ok(None) => Ok((streams, saw_video, saw_audio)),
                Ok(Some(s)) => Ok((streams.push(s), true, saw_audio)),
            }
        } else {
            Ok((streams, saw_video, saw_audio))
        };
        match step {
            Err(e) => Err(e),
            Ok((s, v, a)) => if end + 4 + 11 > b.len() { Ok(s) } else { flv_walk(b, end + 4, s, v, a) },
        }
    }
}

/// Whether `b` starts with an FLV version 1 header.
pub open spec fn spec_looks_like_flv(b: Seq<u8>) -> bool {
    b.len() >= 9 && has_tag(b, 0, seq![0x46u8, 0x4c, 0x56]) && b[3] == 1
}

/// The probe of an FLV file: the streams of its first audio and AVC sequence headers.
pub open spec fn spec_parse_flv(b: Seq<u8>) -> core::result::Result<Probe, Failure> {
    let pos = u32_be(b, 5) + 4;
    if !spec_looks_like_flv(b) {
        Err(Failure::InvalidData)
    } else if pos > usize::MAX {
        Err(Failure::InvalidData)
    } else if pos > b.len() {
        Err(eof(pos, b.len() as int))
    } else {
        match flv_walk(b, pos, Seq::empty(), false, false) {
            Err(e) => Err(e),
            Ok(s) => if s.len() == 0 { Err(Failure::InvalidData) } else { Ok(Probe { format: "flv", streams: s }) },
        }
    }
}

/// Whether `bytes` starts with an FLV header.
pub fn looks_like_flv(bytes: &[u8]) -> (r: bool)
    ensures
        r == spec_looks_like_flv(bytes@),
{
    bytes.len() >= 9 && tag_at(bytes, 0, &[0x46u8, 0x4c, 0x56]) && bytes[3] == 1
}

/// Reads an AAC sequence header tag.
pub fn parse_aac_tag(data: &[u8], index: usize) -> (r: Result<Option<StreamMetadata>>)
    ensures
        outcome(r) == spec_aac_tag(data@, index as int),
{
    proof {
        reveal(spec_aac_tag);
    }
    if data.len() < 4 || data[0] / 16 != 10 || data[1] != 0 {
        return Ok(None);
    }
    let config: AacAudioConfig = match parse_audio_specific_config(&data[2..data.len()]) {
        Some(c) => c,
        None => return Err(invalid_data("invalid FLV AAC sequence header")),
    };
    let rate: u32 = match config.sample_rate { Some(x) => x, None => 0 };
    let channels: u16 = match config.channels { Some(x) => x, None => 0 };
    let bits: u16 = match config.bits_per_sample { Some(x) => x, None => 0 };
    Ok(Some(StreamMetadata::audio(index, config.codec_name, rate, channels, bits, zero_seconds())))
}

/// Reads an audio tag.
pub fn parse_audio_tag(data: &[u8], index: usize) -> (r: Result<Option<StreamMetadata>>)
    ensures
        outcome(r) == spec_audio_tag(data@, index as int),
{
    proof {
        reveal(spec_audio_tag);
    }
    if data.len() == 0 {
        return Ok(None);
    }
    let sound_format = data[0] / 16;
    if sound_format == 10 {
        return parse_aac_tag(data, index);
    }
    if sound_format == 6 {
        let code = (data[0] / 4) % 4;
        let rate: u32 = if code == 0 { 5500 } else if code == 1 { 11025 } else if code == 2 { 22050 } else { 44100 };
        let channels: u16 = if data[0] % 2 == 1 { 2 } else { 1 };
        return Ok(Some(StreamMetadata::audio(index, "nellymoser", rate, channels, 0, zero_seconds())));
    }
    Ok(None)
}

/// The range of the first SPS of an AVCDecoderConfigurationRecord.
fn first_avc_sps(config: &[u8]) -> (r: Result<(usize, usize)>)
    ensures
        match spec_first_avc_sps(config@) {
            Ok((s, e)) => r == Ok::<(usize, usize), RmpegError>((s as usize, e as usize)) && e <= config@.len(),
            Err(e) => outcome(r) == Err::<(usize, usize), Failure>(e),
        },
{
    if config.len() < 7 || config[0] != 1 {
        return Err(invalid_data("invalid AVCDecoderConfigurationRecord"));
    }
    if config[5] % 32 == 0 {
        return Err(invalid_data("AVC configuration has no SPS"));
    }
    let sps_len = match read_u16_be(config, 6) { Ok(v) => v, Err(e) => return Err(e) } as usize;
    let end = 8 + sps_len;
    if end > config.len() {
        return Err(unexpected_eof(end, config.len()));
    }
    Ok((8, end))
}

/// Reads an AVC sequence header tag.
fn parse_h264_tag(data: &[u8], index: usize) -> (r: Result<Option<StreamMetadata>>)
    ensures
        outcome(r) == spec_h264_tag(data@, index as int),
{
    proof {
        reveal(spec_h264_tag);
    }
    if data.len() < 11 || data[0] % 16 != 7 || data[1] != 0 {
        return Ok(None);
    }
    let config = &data[5..data.len()];
    let (s, e) = match first_avc_sps(config) { Ok(r) => r, Err(err) => return Err(err) };
    let mut annex_b: Vec<u8> = Vec::new();
    crate::bytes::append_bytes(&mut annex_b, &[0x00u8, 0x00, 0x00, 0x01]);
    crate::bytes::append_bytes(&mut annex_b, &config[s..e]);
    let doc = match parse_h264_annex_b(annex_b.as_slice()) { Ok(d) => d, Err(err) => return Err(err) };
    if doc.streams.len() == 0 {
        return Err(invalid_data("FLV AVC sequence header has no SPS stream"));
    }
    let width: u32 = match doc.streams[0].width { Some(w) => w, None => 0 };
    let height: u32 = match doc.streams[0].height { Some(h) => h, None => 0 };
    Ok(Some(StreamMetadata::video(index, "h264", width, height, Some(zero_seconds()), None)))
}

/// Probes an FLV file by its sequence header tags.
pub fn parse_flv(bytes: &[u8]) -> (r: Result<ProbeDocument>)
    ensures
        probe_outcome(r) == spec_parse_flv(bytes@),
{
    if !looks_like_flv(bytes) {
        return Err(invalid_data("missing FLV header"));
    }
    let offset = match read_u32_be(bytes, 5) { Ok(v) => v, Err(e) => return Err(e) } as usize;
    if offset > usize::MAX - 4 {
        return Err(invalid_data("FLV data offset overflow"));
    }
    let len = bytes.len();
    let mut pos = offset + 4;
    if pos > len {
        return Err(unexpected_eof(pos, len));
    }
    let mut streams: Vec<StreamMetadata> = Vec::new();
    let mut saw_video = false;
    let mut saw_audio = false;
    while len - pos >= 11
        invariant_except_break
            flv_walk(bytes@, offset + 4, Seq::empty(), false, false) == flv_walk(bytes@, pos as int, streams@, saw_video, saw_audio),
        invariant
            len == bytes@.len(),
            pos <= len,
            spec_looks_like_flv(bytes@),
            offset == u32_be(bytes@, 5),
            offset + 4 <= len,
        ensures
            flv_walk(bytes@, offset + 4, Seq::empty(), false, false) == Ok::<Seq<StreamMetadata>, Failure>(streams@),
        decreases len - pos,
    {
        let tag_type = bytes[pos];
        let size = (bytes[pos + 1] as usize) * 0x1_0000 + (bytes[pos + 2] as usize) * 0x100 + bytes[pos + 3] as usize;
        let start = pos + 11;
        if size > usize::MAX - start {
            return Err(invalid_data("FLV tag size overflow"));
        }
        let end = start + size;
        if end > len {
            break;
        }
        let data = &bytes[start..end];
        if tag_type == 8 && !saw_audio {
            match parse_audio_tag(data, streams.len()) {
                Ok(Some(s)) => {
                    streams.push(s);
                    saw_audio = true;
                },
                Ok(None) => {},
                Err(e) => return Err(e),
            }
        } else if tag_type == 9 && !saw_video {
            match parse_h264_tag(data, streams.len()) {
                Ok(Some(s)) => {
                    streams.push(s);
                    saw_video = true;
                },
                Ok(None) => {},
                Err(e) => return Err(e),
            }
        }
        if len - end < 4 + 11 {
            break;
        }
        pos = end + 4;
    }
    if streams.len() == 0 {
        return Err(invalid_data("FLV file has no supported sequence headers"));
    }
    Ok(ProbeDocument { format: "flv", streams })
}

fn read_u16_be(bytes: &[u8], offset: usize) -> (r: Result<u16>)
    requires
        offset <= usize::MAX - 2,
    ensures
        read_outcome16(r) == read_result(bytes@, offset as int, 2, u16_be(bytes@, offset as int)),
{
    if offset + 2 > bytes.len() {
        return Err(unexpected_eof(offset + 2, bytes.len()));
    }
    Ok(be16(bytes, offset))
}

fn read_u32_be(bytes: &[u8], offset: usize) -> (r: Result<u32>)
    requires
        offset <= usize::MAX - 4,
    ensures
        read_outcome32(r) == read_result(bytes@, offset as int, 4, u32_be(bytes@, offset as int)),
{
    if offset + 4 > bytes.len() {
        return Err(unexpected_eof(offset + 4, bytes.len()));
    }
    Ok(be32(bytes, offset))
}

} // verus!
