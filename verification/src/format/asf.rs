use vstd::prelude::*;
use crate::bytes::{sat, sat_add, has_tag, le16, le32, le64, read_outcome16, read_outcome32, read_outcome64, read_result, tag_at, u16_le, u32_le, u64_le};
use crate::error::{eof, failure, invalid_data, unexpected_eof, Failure, Result};
use crate::metadata::{audio_stream, probe_outcome, secs, video_stream, Probe, ProbeDocument, Seconds, StreamMetadata};

verus! {

/// A stream that an ASF stream-properties object describes and the probe reports.
#[derive(Debug, Clone, Copy, PartialEq, Eq)]
pub enum AsfStream {
    Audio { codec_name: &'static str, sample_rate: u32, channels: u16, bits_per_sample: u16 },
    Video { codec_name: &'static str, width: u32, height: u32 },
}

/// What the header objects of an ASF file have told so far.
#[derive(Debug)]
pub struct AsfMetadata {
    pub declared_file_size: Option<u64>,
    pub play_duration_100ns: Option<u64>,
    pub preroll_ms: Option<u64>,
    pub average_bytes_per_second: Option<u32>,
    pub streams: Vec<AsfStream>,
}

/// The spec-level content of `AsfMetadata`.
pub struct AsfMeta {
    pub declared: Option<u64>,
    pub play: Option<u64>,
    pub preroll: Option<u64>,
    pub avg: Option<u32>,
    pub streams: Seq<AsfStream>,
}

impl View for AsfMetadata {
    type V = AsfMeta;

    open spec fn view(&self) -> AsfMeta {
        AsfMeta {
            declared: self.declared_file_size,
            play: self.play_duration_100ns,
            preroll: self.preroll_ms,
            avg: self.average_bytes_per_second,
            streams: self.streams@,
        }
    }
}

impl Default for AsfMetadata {
    /// Nothing known yet.
    fn default() -> (m: Self)
        ensures
            m@ == asf_empty(),
    {
        AsfMetadata {
            declared_file_size: None,
            play_duration_100ns: None,
            preroll_ms: None,
            average_bytes_per_second: None,
            streams: Vec::new(),
        }
    }
}

/// Nothing known yet.
pub open spec fn asf_empty() -> AsfMeta {
    AsfMeta { declared: None, play: None, preroll: None, avg: None, streams: Seq::empty() }
}

/// The header GUID every ASF file starts with.
pub open spec fn asf_header_guid() -> Seq<u8> {
    seq![0x30u8, 0x26, 0xb2, 0x75, 0x8e, 0x66, 0xcf, 0x11, 0xa6, 0xd9, 0x00, 0xaa, 0x00, 0x62, 0xce, 0x6c]
}

/// The GUID of the file properties object.
pub open spec fn file_properties_guid() -> Seq<u8> {
    seq![0xa1u8, 0xdc, 0xab, 0x8c, 0x47, 0xa9, 0xcf, 0x11, 0x8e, 0xe4, 0x00, 0xc0, 0x0c, 0x20, 0x53, 0x65]
}

/// The GUID of a stream properties object.
pub open spec fn stream_properties_guid() -> Seq<u8> {
    seq![0x91u8, 0x07, 0xdc, 0xb7, 0xb7, 0xa9, 0xcf, 0x11, 0x8e, 0xe6, 0x00, 0xc0, 0x0c, 0x20, 0x53, 0x65]
}

/// The stream type GUID of audio streams.
pub open spec fn audio_media_guid() -> Seq<u8> {
    seq![0x40u8, 0x9e, 0x69, 0xf8, 0x4d, 0x5b, 0xcf, 0x11, 0xa8, 0xfd, 0x00, 0x80, 0x5f, 0x5c, 0x44, 0x2b]
}

/// The stream type GUID of video streams.
pub open spec fn video_media_guid() -> Seq<u8> {
    seq![0xc0u8, 0xef, 0x19, 0xbc, 0x4d, 0x5b, 0xcf, 0x11, 0xa8, 0xfd, 0x00, 0x80, 0x5f, 0x5c, 0x44, 0x2b]
}

/// A WAVEFORMATEX of a Windows Media Audio stream adds its stream; other audio is ignored.
pub open spec fn asf_audio_spec(wave: Seq<u8>, m: AsfMeta) -> core::result::Result<AsfMeta, Failure> {
    if wave.len() < 16 {
        Err(eof(16, wave.len() as int))
    } else {
        let tag = u16_le(wave, 0);
        let codec: Option<&'static str> = if tag == 0x0163 { Some("wmalossless") } else if tag == 0x0162 { Some("wmapro") } else if tag == 0x0161 { Some("wmav2") } else { None };
        match codec {
            None => Ok(m),
            Some(c) => Ok(AsfMeta {
                avg: Some(u32_le(wave, 8) as u32),
                streams: m.streams.push(AsfStream::Audio {
                    codec_name: c,
                    sample_rate: u32_le(wave, 4) as u32,
                    channels: u16_le(wave, 2) as u16,
                    bits_per_sample: if tag == 0x0163 { u16_le(wave, 14) as u16 } else { 0 },
                }),
                ..m
            }),
        }
    }
}

/// A BITMAPINFOHEADER of a screen-capture video stream adds its stream when its size is known.
pub open spec fn asf_video_spec(video: Seq<u8>, m: AsfMeta) -> core::result::Result<AsfMeta, Failure> {
    if video.len() < 31 {
        Err(eof(31, video.len() as int))
    } else {
        let tag = video.subrange(27, 31);
        let codec: Option<&'static str> = if tag == seq![0x4du8, 0x53, 0x53, 0x32] { Some("mss2") }
            else if tag == seq![0x47u8, 0x32, 0x4d, 0x32] || tag == seq![0x47u8, 0x32, 0x4d, 0x33] || tag == seq![0x47u8, 0x32, 0x4d, 0x34] { Some("g2m") } else { None };
        match codec {
            None => Ok(m),
            Some(c) => if u32_le(video, 0) == 0 || u32_le(video, 4) == 0 {
                Ok(m)
            } else {
                Ok(AsfMeta {
                    streams: m.streams.push(AsfStream::Video { codec_name: c, width: u32_le(video, 0) as u32, height: u32_le(video, 4) as u32 }),
                    ..m
                })
            },
        }
    }
}

/// The file properties object gives the declared size, the play duration and the preroll.
pub open spec fn asf_file_props_spec(data: Seq<u8>, m: AsfMeta) -> core::result::Result<AsfMeta, Failure> {
    if data.len() < 64 {
        Err(eof(64, data.len() as int))
    } else {
        Ok(AsfMeta {
            declared: Some(u64_le(data, 16) as u64),
            play: Some(u64_le(data, 40) as u64),
            preroll: Some(u64_le(data, 56) as u64),
            ..m
        })
    }
}

/// A stream properties object: its type GUID, then type-specific data from byte 54.
pub open spec fn asf_stream_props_spec(data: Seq<u8>, m: AsfMeta) -> core::result::Result<AsfMeta, Failure> {
    if data.len() < 54 {
        Err(eof(54, data.len() as int))
    } else {
        let end = 54 + u32_le(data, 40);
        if end > data.len() {
            Err(eof(sat(end), data.len() as int))
        } else if data.subrange(0, 16) == audio_media_guid() {
            asf_audio_spec(data.subrange(54, end), m)
        } else if data.subrange(0, 16) == video_media_guid() {
            asf_video_spec(data.subrange(54, end), m)
        } else {
            Ok(m)
        }
    }
}

/// The header objects from the `i`-th (at `pos`) of `count`, inside the first `hs` bytes.
pub open spec fn asf_walk(b: Seq<u8>, hs: int, count: int, i: int, pos: int, m: AsfMeta) -> core::result::Result<AsfMeta, Failure>
    decreases count - i,
{
    if i >= count || pos + 24 > hs {
        Ok(m)
    } else {
        let osz = u64_le(b, pos + 16);
        if osz > usize::MAX || osz < 24 || pos + osz > hs {
            Err(Failure::InvalidData)
        } else {
            let data = b.subrange(pos + 24, pos + osz);
            let guid = b.subrange(pos, pos + 16);
            let next = if guid == file_properties_guid() {
                asf_file_props_spec(data, m)
            } else if guid == stream_properties_guid() {
                asf_stream_props_spec(data, m)
            } else {
                Ok(m)
            };
            match next {
                Err(e) => Err(e),
                Ok(m2) => asf_walk(b, hs, count, i + 1, pos + osz, m2),
            }
        }
    }
}

/// The duration: play duration less preroll (not below zero); when the file is shorter
/// than declared and the byte rate is known, at most the payload bytes over the byte rate.
pub open spec fn asf_duration(len: int, hs: int, m: AsfMeta) -> Seconds {
    let hd: int = match (m.play, m.preroll) {
        (Some(play), Some(pre)) => if play - pre * 10000 > 0 { play - pre * 10000 } else { 0 },
        _ => 0,
    };
    let header = secs(hd, 10_000_000);
    match (m.declared, m.avg) {
        (Some(declared), Some(avg)) => if avg == 0 || len >= declared {
            header
        } else {
            let payload = if len > hs + 50 { len - (hs + 50) } else { 0 };
            if hd * avg <= payload * 10_000_000 { header } else { secs(payload, avg as int) }
        },
        _ => header,
    }
}

/// The reported stream for `s` at position `index`.
pub open spec fn asf_stream_meta(s: AsfStream, index: int, truncated: bool, d: Seconds) -> StreamMetadata {
    match s {
        AsfStream::Audio { codec_name, sample_rate, channels, bits_per_sample } =>
            audio_stream(index, codec_name, sample_rate as int, channels as int, if truncated { 0 } else { bits_per_sample as int }, d),
        AsfStream::Video { codec_name, width, height } =>
            video_stream(index, codec_name, width as int, height as int, Some(d), None),
    }
}

/// The probe of an ASF file: the streams its header objects describe.
pub open spec fn spec_parse_asf(b: Seq<u8>) -> core::result::Result<Probe, Failure> {
    let len = b.len() as int;
    if !has_tag(b, 0, asf_header_guid()) {
        Err(Failure::InvalidData)
    } else if len < 30 {
        Err(eof(30, len))
    } else {
        let hs = u64_le(b, 16);
        if hs > usize::MAX {
            Err(Failure::InvalidData)
        } else if hs > len {
            Err(eof(hs, len))
        } else {
            match asf_walk(b, hs, u32_le(b, 24), 0, 30, asf_empty()) {
                Err(e) => Err(e),
                Ok(m) => if m.streams.len() == 0 {
                    Err(Failure::InvalidData)
                } else {
                    let d = asf_duration(len, hs, m);
                    let truncated = match m.declared { Some(declared) => len < declared, None => false };
                    Ok(Probe {
                        format: "asf",
                        streams: Seq::new(m.streams.len(), |i: int| asf_stream_meta(m.streams[i], i, truncated, d)),
                    })
                },
            }
        }
    }
}

/// Whether `bytes` starts with the ASF header GUID.
pub fn looks_like_asf(bytes: &[u8]) -> (r: bool)
    ensures
        r == has_tag(bytes@, 0, asf_header_guid()),
{
    let guid = &[0x30u8, 0x26, 0xb2, 0x75, 0x8e, 0x66, 0xcf, 0x11, 0xa6, 0xd9, 0x00, 0xaa, 0x00, 0x62, 0xce, 0x6c];
    assert(guid@ =~= asf_header_guid());
    tag_at(bytes, 0, guid)
}

/// Reads the WAVEFORMATEX of an audio stream into `metadata`.
pub fn parse_audio_stream_data(wave: &[u8], metadata: &mut AsfMetadata) -> (r: Result<()>)
    ensures
        match r {
            Ok(_) => asf_audio_spec(wave@, old(metadata)@) == Ok::<AsfMeta, Failure>(final(metadata)@),
            Err(e) => asf_audio_spec(wave@, old(metadata)@) == Err::<AsfMeta, Failure>(failure(e)),
        },
{
    if wave.len() < 16 {
        return Err(unexpected_eof(16, wave.len()));
    }
    let tag = le16(wave, 0);
    let codec: &'static str = if tag == 0x0163 { "wmalossless" } else if tag == 0x0162 { "wmapro" } else if tag == 0x0161 { "wmav2" } else {
        return Ok(());
    };
    let bits = if tag == 0x0163 { le16(wave, 14) } else { 0 };
    metadata.average_bytes_per_second = Some(le32(wave, 8));
    metadata.streams.push(AsfStream::Audio { codec_name: codec, sample_rate: le32(wave, 4), channels: le16(wave, 2), bits_per_sample: bits });
    Ok(())
}

/// Reads the BITMAPINFOHEADER of a video stream into `metadata`.
pub fn parse_video_stream_data(video: &[u8], metadata: &mut AsfMetadata) -> (r: Result<()>)
    ensures
        match r {
            Ok(_) => asf_video_spec(video@, old(metadata)@) == Ok::<AsfMeta, Failure>(final(metadata)@),
            Err(e) => asf_video_spec(video@, old(metadata)@) == Err::<AsfMeta, Failure>(failure(e)),
        },
{
    if video.len() < 31 {
        return Err(unexpected_eof(31, video.len()));
    }
    let codec: &'static str = if tag_at(video, 27, &[0x4du8, 0x53, 0x53, 0x32]) {
        "mss2"
    } else if tag_at(video, 27, &[0x47u8, 0x32, 0x4d, 0x32]) || tag_at(video, 27, &[0x47u8, 0x32, 0x4d, 0x33]) || tag_at(video, 27, &[0x47u8, 0x32, 0x4d, 0x34]) {
        "g2m"
    } else {
        return Ok(());
    };
    let width = le32(video, 0);
    let height = le32(video, 4);
    if width == 0 || height == 0 {
        return Ok(());
    }
    metadata.streams.push(AsfStream::Video { codec_name: codec, width, height });
    Ok(())
}

fn parse_file_properties(data: &[u8], metadata: &mut AsfMetadata) -> (r: Result<()>)
    ensures
        match r {
            Ok(_) => asf_file_props_spec(data@, old(metadata)@) == Ok::<AsfMeta, Failure>(final(metadata)@),
            Err(e) => asf_file_props_spec(data@, old(metadata)@) == Err::<AsfMeta, Failure>(failure(e)),
        },
{
    if data.len() < 64 {
        return Err(unexpected_eof(64, data.len()));
    }
    metadata.declared_file_size = Some(le64(data, 16));
    metadata.play_duration_100ns = Some(le64(data, 40));
    metadata.preroll_ms = Some(le64(data, 56));
    Ok(())
}

fn parse_stream_properties(data: &[u8], metadata: &mut AsfMetadata) -> (r: Result<()>)
    ensures
        match r {
            Ok(_) => asf_stream_props_spec(data@, old(metadata)@) == Ok::<AsfMeta, Failure>(final(metadata)@),
            Err(e) => asf_stream_props_spec(data@, old(metadata)@) == Err::<AsfMeta, Failure>(failure(e)),
        },
{
    if data.len() < 54 {
        return Err(unexpected_eof(54, data.len()));
    }
    let type_len = le32(data, 40) as usize;
    if type_len > data.len() - 54 {
        return Err(unexpected_eof(sat_add(54, type_len), data.len()));
    }
    let end = 54 + type_len;
    let audio = &[0x40u8, 0x9e, 0x69, 0xf8, 0x4d, 0x5b, 0xcf, 0x11, 0xa8, 0xfd, 0x00, 0x80, 0x5f, 0x5c, 0x44, 0x2b];
    let video = &[0xc0u8, 0xef, 0x19, 0xbc, 0x4d, 0x5b, 0xcf, 0x11, 0xa8, 0xfd, 0x00, 0x80, 0x5f, 0x5c, 0x44, 0x2b];
    assert(audio@ =~= audio_media_guid());
    assert(video@ =~= video_media_guid());
    if tag_at(data, 0, audio) {
        parse_audio_stream_data(&data[54..end], metadata)
    } else if tag_at(data, 0, video) {
        parse_video_stream_data(&data[54..end], metadata)
    } else {
        Ok(())
    }
}

fn asf_duration_exec(len: usize, hs: usize, m: &AsfMetadata) -> (d: Seconds)
    requires
        hs <= len,
    ensures
        d == asf_duration(len as int, hs as int, m@),
{
    let hd: u128 = match (m.play_duration_100ns, m.preroll_ms) {
        (Some(play), Some(pre)) => {
            let p = pre as u128 * 10000;
            if play as u128 > p { play as u128 - p } else { 0 }
        },
        _ => 0,
    };
    let header = Seconds { num: hd, den: 10_000_000 };
    match (m.declared_file_size, m.average_bytes_per_second) {
        (Some(declared), Some(avg)) => {
            if avg == 0 || len as u64 >= declared {
                header
            } else {
                let payload: u128 = if len - hs > 50 { (len - hs - 50) as u128 } else { 0 };
                assert(hd * (avg as u128) <= 0x1_0000_0000_0000_0000 * 0x1_0000_0000) by (nonlinear_arith)
                    requires
                        hd <= 0x1_0000_0000_0000_0000,
                        avg <= 0xffff_ffff,
                ;
                assert(payload * 10_000_000 <= 0x1_0000_0000_0000_0000 * 10_000_000) by (nonlinear_arith)
                    requires
                        payload <= 0x1_0000_0000_0000_0000,
                ;
                if hd * (avg as u128) <= payload * 10_000_000 { header } else { Seconds { num: payload, den: avg as u128 } }
            }
        },
        _ => header,
    }
}

/// Probes an ASF (Windows Media) file.
pub fn parse_asf(bytes: &[u8]) -> (r: Result<ProbeDocument>)
    ensures
        probe_outcome(r) == spec_parse_asf(bytes@),
{
    if !looks_like_asf(bytes) {
        return Err(invalid_data("missing ASF header"));
    }
    let len = bytes.len();
    if len < 30 {
        return Err(unexpected_eof(30, len));
    }
    let hs64 = le64(bytes, 16);
    if hs64 as u128 > usize::MAX as u128 {
        return Err(invalid_data("ASF header is too large"));
    }
    let hs = hs64 as usize;
    if hs > len {
        return Err(unexpected_eof(hs, len));
    }
    let count = le32(bytes, 24);
    let mut m = AsfMetadata::default();
    let mut pos: usize = 30;
    let mut i: u32 = 0;
    while i < count
        invariant_except_break
            asf_walk(bytes@, hs as int, count as int, 0, 30, asf_empty()) == asf_walk(bytes@, hs as int, count as int, i as int, pos as int, m@),
        invariant
            hs <= len,
            len == bytes@.len(),
            has_tag(bytes@, 0, asf_header_guid()),
            len >= 30,
            hs == u64_le(bytes@, 16),
            count == u32_le(bytes@, 24),
            i <= count,
            pos <= hs || pos == 30,
        ensures
            asf_walk(bytes@, hs as int, count as int, 0, 30, asf_empty()) == Ok::<AsfMeta, Failure>(m@),
        decreases count - i,
    {
        if pos > hs || hs - pos < 24 {
            break;
        }
        let osz64 = le64(bytes, pos + 16);
        if osz64 as u128 > usize::MAX as u128 {
            return Err(invalid_data("invalid ASF object size"));
        }
        let osz = osz64 as usize;
        if osz < 24 || osz > hs - pos {
            return Err(invalid_data("invalid ASF object size"));
        }
        let data = &bytes[pos + 24..pos + osz];
        let file_guid = &[0xa1u8, 0xdc, 0xab, 0x8c, 0x47, 0xa9, 0xcf, 0x11, 0x8e, 0xe4, 0x00, 0xc0, 0x0c, 0x20, 0x53, 0x65];
        let stream_guid = &[0x91u8, 0x07, 0xdc, 0xb7, 0xb7, 0xa9, 0xcf, 0x11, 0x8e, 0xe6, 0x00, 0xc0, 0x0c, 0x20, 0x53, 0x65];
        assert(file_guid@ =~= file_properties_guid());
        assert(stream_guid@ =~= stream_properties_guid());
        let step = if tag_at(bytes, pos, file_guid) {
            parse_file_properties(data, &mut m)
        } else if tag_at(bytes, pos, stream_guid) {
            parse_stream_properties(data, &mut m)
        } else {
            Ok(())
        };
        match step {
            Err(e) => return Err(e),
            Ok(_) => {},
        }
        pos += osz;
        i += 1;
    }
    if m.streams.len() == 0 {
        return Err(invalid_data("ASF file has no supported audio/video stream"));
    }
    let d = asf_duration_exec(len, hs, &m);
    let truncated = match m.declared_file_size { Some(declared) => (len as u64) < declared, None => false };
    let mut streams: Vec<StreamMetadata> = Vec::new();
    let mut k: usize = 0;
    while k < m.streams.len()
        invariant
            k <= m.streams@.len(),
            streams@ == Seq::new(k as nat, |j: int| asf_stream_meta(m.streams@[j], j, truncated, d)),
        decreases m.streams@.len() - k,
    {
        let s = match m.streams[k] {
            AsfStream::Audio { codec_name, sample_rate, channels, bits_per_sample } =>
                StreamMetadata::audio(k, codec_name, sample_rate, channels, if truncated { 0 } else { bits_per_sample }, d),
            AsfStream::Video { codec_name, width, height } =>
                StreamMetadata::video(k, codec_name, width, height, Some(d), None),
        };
        streams.push(s);
        assert(streams@ =~= Seq::new((k + 1) as nat, |j: int| asf_stream_meta(m.streams@[j], j, truncated, d)));
        k += 1;
    }
    Ok(ProbeDocument { format: "asf", streams })
}

fn read_u16_le(bytes: &[u8], offset: usize) -> (r: Result<u16>)
    requires
        offset <= usize::MAX - 2,
    ensures
        read_outcome16(r) == read_result(bytes@, offset as int, 2, u16_le(bytes@, offset as int)),
{
    if offset + 2 > bytes.len() {
        return Err(unexpected_eof(offset + 2, bytes.len()));
    }
    Ok(le16(bytes, offset))
}

fn read_u32_le(bytes: &[u8], offset: usize) -> (r: Result<u32>)
    requires
        offset <= usize::MAX - 4,
    ensures
        read_outcome32(r) == read_result(bytes@, offset as int, 4, u32_le(bytes@, offset as int)),
{
    if offset + 4 > bytes.len() {
        return Err(unexpected_eof(offset + 4, bytes.len()));
    }
    Ok(le32(bytes, offset))
}

fn read_u64_le(bytes: &[u8], offset: usize) -> (r: Result<u64>)
    requires
        offset <= usize::MAX - 8,
    ensures
        read_outcome64(r) == read_result(bytes@, offset as int, 8, u64_le(bytes@, offset as int)),
{
    if offset + 8 > bytes.len() {
        return Err(unexpected_eof(offset + 8, bytes.len()));
    }
    Ok(le64(bytes, offset))
}

} // verus!
