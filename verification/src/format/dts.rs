use vstd::prelude::*;
use crate::bytes::{be16, be32, be64, first_tag, find_tag, u64_be, has_tag, read_outcome16, read_outcome32, read_outcome64, read_result, tag_at, u16_be, u32_be};
use crate::error::{eof, invalid_data, outcome, unexpected_eof, unsupported, Failure, Result, RmpegError};
use crate::metadata::{audio_stream, probe_outcome, secs, zero_secs, zero_seconds, Probe, ProbeDocument, Seconds, StreamMetadata};
use crate::bits::{msb, BitReader};
use crate::error::{join3, lossy_text, push_decimal, with_hex};

verus! {

/// What a DTS core frame header tells of the stream.
#[derive(Debug, Clone, Copy, PartialEq, Eq)]
pub struct DtsCoreInfo {
    pub sample_rate: u32,
    pub channels: u16,
    pub bits_per_sample: u16,
    pub bitrate: Option<u32>,
}

/// The DTS core sync word.
pub open spec fn dts_sync() -> Seq<u8> {
    seq![0x7fu8, 0xfe, 0x80, 0x01]
}

/// The marker of a DTS-HD extension substream.
pub open spec fn dts_hd_marker() -> Seq<u8> {
    seq![0x64u8, 0x58, 0x20, 0x25]
}

/// The channels of core audio mode `mode`, before LFE and extension.
pub open spec fn dts_mode_channels(mode: int) -> Option<int> {
    if mode == 0 { Some(1) } else if mode <= 2 { Some(2) } else if mode <= 5 { Some(3) } else if mode == 6 { Some(4) }
    else if mode <= 9 { Some(5) } else if mode <= 12 { Some(6) } else if mode == 13 { Some(7) }
    else if mode <= 15 { Some(8) } else { None }
}

/// The sample rate of core rate index `i`, where it names one.
pub open spec fn dts_rate(i: int) -> Option<int> {
    if i == 1 { Some(8000) } else if i == 2 { Some(16000) } else if i == 3 { Some(32000) } else if i == 6 { Some(11025) }
    else if i == 7 { Some(22050) } else if i == 8 { Some(44100) } else if i == 11 { Some(12000) } else if i == 12 { Some(24000) }
    else if i == 13 { Some(48000) } else if i == 14 { Some(96000) } else if i == 15 { Some(192000) } else { None }
}

/// The bit rate of core rate code `i`, where it names one.
pub open spec fn dts_bitrate_of(i: int) -> Option<int> {
    if 0 <= i < 29 {
        Some(seq![32000int, 56000, 64000, 96000, 112000, 128000, 192000, 224000, 256000, 320000,
            384000, 448000, 512000, 576000, 640000, 768000, 960000, 1024000, 1152000,
            1280000, 1344000, 1408000, 1411200, 1472000, 1536000, 1920000, 2048000,
            3072000, 3840000][i])
    } else {
        None
    }
}

/// The core frame header at the start of `d`: the sync word, then audio mode, rate
/// and bit-rate codes, extension flag and LFE code at fixed bit positions.
pub open spec fn spec_dts_core(d: Seq<u8>) -> Option<DtsCoreInfo> {
    let mode = msb(d, 60, 6);
    let rate_index = msb(d, 66, 4);
    let bitrate_index = msb(d, 70, 5);
    let ext = msb(d, 83, 1) != 0;
    let lfe = msb(d, 85, 2);
    if !has_tag(d, 0, dts_sync()) || d.len() * 8 < 87 {
        None
    } else {
        match dts_mode_channels(mode) {
            None => None,
            Some(c) => match dts_rate(rate_index) {
                None => None,
                Some(r) => Some(DtsCoreInfo {
                    sample_rate: r as u32,
                    channels: (c + (if lfe != 0 { 1int } else { 0int }) + (if ext { 1int } else { 0int })) as u16,
                    bits_per_sample: 0,
                    bitrate: match dts_bitrate_of(bitrate_index) {
                        Some(b) => Some(b as u32),
                        None => None,
                    },
                }),
            },
        }
    }
}

/// The channels of a DTS-HD channel mask, judged by its upper three bytes.
pub open spec fn dtshd_channels_of(mask: int) -> Option<int> {
    let m = mask - mask % 256;
    if m == 0x0f00 { Some(6) } else if m == 0x1f00 { Some(7) } else if m == 0x084b00 { Some(8) } else { None }
}

/// The data range of the first `AUPR-HDR` chunk, walking DTS-HD chunks from `pos`.
pub open spec fn dtshd_walk(b: Seq<u8>, pos: int) -> core::result::Result<Option<(int, int)>, Failure>
    decreases b.len() - pos,
{
    let size = (u64_be(b, pos + 8) as usize) as int;
    let start = pos + 16;
    let end = start + size;
    if pos < 0 || pos + 16 > b.len() {
        Ok(None)
    } else if end > usize::MAX || end > b.len() {
        Err(Failure::InvalidData)
    } else if has_tag(b, pos, seq![0x41u8, 0x55, 0x50, 0x52, 0x2d, 0x48, 0x44, 0x52]) {
        Ok(Some((start, end)))
    } else {
        dtshd_walk(b, end)
    }
}

/// The audio stream an `AUPR-HDR` chunk `a` describes.
pub open spec fn spec_aupr(a: Seq<u8>) -> core::result::Result<StreamMetadata, Failure> {
    let kind = a[2];
    let rate = a[3] * 65536 + a[4] * 256 + a[5];
    let quanta = u16_be(a, 14);
    let bits = if kind == 4 || kind == 5 { if rate == 192000 && a[10] == 8 { 16int } else { 24int } } else { 0int };
    if a.len() < 20 {
        Err(eof(20, a.len() as int))
    } else {
        match dtshd_channels_of(u32_be(a, 16)) {
            None => Err(Failure::InvalidData),
            Some(ch) => Ok(audio_stream(0, "dts", rate, ch, bits, secs(quanta * 384, rate))),
        }
    }
}

/// The probe of a DTS-HD file: the stream its `AUPR-HDR` chunk describes.
pub open spec fn spec_parse_dtshd(b: Seq<u8>) -> core::result::Result<Probe, Failure> {
    if !has_tag(b, 0, seq![0x44u8, 0x54, 0x53, 0x48, 0x44, 0x48, 0x44, 0x52]) {
        Err(Failure::InvalidData)
    } else {
        match dtshd_walk(b, 0) {
            Err(e) => Err(e),
            Ok(None) => Err(Failure::InvalidData),
            Ok(Some(r)) => match spec_aupr(b.subrange(r.0, r.1)) {
                Err(e) => Err(e),
                Ok(s) => Ok(Probe { format: "dtshd", streams: seq![s] }),
            },
        }
    }
}

/// Whether the first 8192 bytes of `b` hold the DTS-HD extension marker.
pub open spec fn has_hd_extension(b: Seq<u8>) -> bool {
    first_tag(b.subrange(0, if b.len() < 8192 { b.len() as int } else { 8192 }), dts_hd_marker()) is Some
}

/// The probe of a raw DTS stream: the core header, with eight channels or more, 24 bits
/// and no duration when an HD extension follows, else a duration from the bit rate.
pub open spec fn spec_parse_raw_dts(b: Seq<u8>) -> core::result::Result<Probe, Failure> {
    match spec_dts_core(b) {
        None => Err(Failure::InvalidData),
        Some(core) => if has_hd_extension(b) {
            Ok(Probe { format: "dts", streams: seq![audio_stream(0, "dts", core.sample_rate as int,
                if core.channels < 8 { 8 } else { core.channels as int }, 24, zero_secs())] })
        } else {
            match core.bitrate {
                None => Err(Failure::InvalidData),
                Some(rate) => Ok(Probe { format: "dts", streams: seq![audio_stream(0, "dts", core.sample_rate as int,
                    core.channels as int, core.bits_per_sample as int, secs((b.len() * 8) as int, rate as int))] }),
            }
        },
    }
}

/// Whether `b` starts with three MPEG-TS packet sync bytes 188 bytes apart.
pub open spec fn spec_looks_like_mpegts(b: Seq<u8>) -> bool {
    b.len() >= 564 && b[0] == 0x47 && b[188] == 0x47 && b[376] == 0x47
}

/// The presentation time stamp of a PES header `d`, when it carries one.
pub open spec fn pes_pts(d: Seq<u8>) -> Option<int> {
    if d.len() < 14 || d[7] < 128 {
        None
    } else {
        Some(((d[9] / 2) % 8) * 0x4000_0000 + d[10] * 0x40_0000 + ((d[11] / 2) % 128) * 0x8000 + d[12] * 128
            + (d[13] / 2) % 128)
    }
}

/// What a scan of transport packets has found: the first and last time stamps of PES
/// packets that carry a DTS sync word, and the first core header that reads.
pub type TsScan = (Option<u64>, Option<u64>, Option<DtsCoreInfo>);

/// The scan after the transport packet at `pos`.
pub open spec fn ts_packet(b: Seq<u8>, pos: int, st: TsScan) -> core::result::Result<TsScan, Failure> {
    let unit_start = (b[pos + 1] / 64) % 2 == 1;
    let control = (b[pos + 3] / 16) % 4;
    let payload = if control == 2 || control == 3 { pos + 5 + b[pos + 4] } else { pos + 4 };
    let data = b.subrange(payload, pos + 188);
    let start = 9 + data[8];
    let pes = data.subrange(start, data.len() as int);
    if b[pos] != 0x47 {
        Err(Failure::InvalidData)
    } else if payload > usize::MAX {
        Err(Failure::InvalidData)
    } else if (control == 1 || control == 3) && payload < pos + 188 && unit_start && data.len() >= 9
        && has_tag(data, 0, seq![0x00u8, 0x00, 0x01]) && start <= data.len() {
        match first_tag(pes, dts_sync()) {
            None => Ok(st),
            Some(s) => {
                let core = if st.2 is None { spec_dts_core(pes.subrange(s, pes.len() as int)) } else { st.2 };
                match pes_pts(data) {
                    Some(p) => Ok((if st.0 is None { Some(p as u64) } else { st.0 }, Some(p as u64), core)),
                    None => Ok((st.0, st.1, core)),
                }
            },
        }
    } else {
        Ok(st)
    }
}

/// The scan of the whole transport packets from `pos` on.
pub open spec fn ts_walk(b: Seq<u8>, pos: int, st: TsScan) -> core::result::Result<TsScan, Failure>
    decreases b.len() - pos,
{
    if pos < 0 || pos + 188 > b.len() {
        Ok(st)
    } else {
        match ts_packet(b, pos, st) {
            Err(e) => Err(e),
            Ok(next) => ts_walk(b, pos + 188, next),
        }
    }
}

/// The probe of an MPEG-TS stream carrying DTS: the first core header found in a PES
/// payload, and a duration from the first to the last time stamp at 90 kHz.
pub open spec fn spec_parse_mpegts_dts(b: Seq<u8>) -> core::result::Result<Probe, Failure> {
    if !spec_looks_like_mpegts(b) {
        Err(Failure::InvalidData)
    } else {
        match ts_walk(b, 0, (None, None, None)) {
            Err(e) => Err(e),
            Ok(st) => match st.2 {
                None => Err(Failure::InvalidData),
                Some(core) => {
                    let d = match (st.0, st.1) {
                        (Some(f), Some(l)) => if l >= f { secs(l - f, 90000) } else { zero_secs() },
                        _ => zero_secs(),
                    };
                    Ok(Probe { format: "mpegts", streams: seq![audio_stream(0, "dts", core.sample_rate as int,
                        core.channels as int, core.bits_per_sample as int, d)] })
                },
            },
        }
    }
}

fn read_u24_be(bytes: &[u8], offset: usize) -> (r: Result<u32>)
    requires
        offset <= usize::MAX - 3,
    ensures
        read_outcome32(r) == read_result(bytes@, offset as int, 3,
            bytes@[offset as int] * 65536 + bytes@[offset + 1] * 256 + bytes@[offset + 2]),
{
    if offset + 3 > bytes.len() {
        return Err(unexpected_eof(offset + 3, bytes.len()));
    }
    Ok((bytes[offset] as u32) * 65536 + (bytes[offset + 1] as u32) * 256 + bytes[offset + 2] as u32)
}

/// Whether `bytes` starts with the DTS core sync word.
pub fn looks_like_raw_dts(bytes: &[u8]) -> (r: bool)
    ensures
        r == has_tag(bytes@, 0, dts_sync()),
{
    tag_at(bytes, 0, &[0x7fu8, 0xfe, 0x80, 0x01])
}

/// Whether `bytes` starts with three MPEG-TS packets.
pub fn looks_like_mpegts(bytes: &[u8]) -> (r: bool)
    ensures
        r == spec_looks_like_mpegts(bytes@),
{
    bytes.len() >= 188 * 3 && bytes[0] == 0x47 && bytes[188] == 0x47 && bytes[376] == 0x47
}

/// A document of one DTS audio stream.
fn audio_document(format: &'static str, sample_rate: u32, channels: u16, bits_per_sample: u16, duration: Seconds)
    -> (d: ProbeDocument)
    ensures
        d@ == (Probe { format, streams: seq![audio_stream(0, "dts", sample_rate as int, channels as int,
            bits_per_sample as int, duration)] }),
{
    ProbeDocument::single(format, StreamMetadata::audio(0, "dts", sample_rate, channels, bits_per_sample, duration))
}

fn dts_audio_mode_channels(mode: u32) -> (r: Option<u16>)
    ensures
        match r {
            Some(v) => dts_mode_channels(mode as int) == Some(v as int),
            None => dts_mode_channels(mode as int) is None,
        },
{
    if mode == 0 { Some(1) } else if mode <= 2 { Some(2) } else if mode <= 5 { Some(3) } else if mode == 6 { Some(4) }
    else if mode <= 9 { Some(5) } else if mode <= 12 { Some(6) } else if mode == 13 { Some(7) }
    else if mode <= 15 { Some(8) } else { None }
}

fn dts_sample_rate(i: u32) -> (r: Option<u32>)
    ensures
        match r {
            Some(v) => dts_rate(i as int) == Some(v as int),
            None => dts_rate(i as int) is None,
        },
{
    if i == 1 { Some(8000) } else if i == 2 { Some(16000) } else if i == 3 { Some(32000) } else if i == 6 { Some(11025) }
    else if i == 7 { Some(22050) } else if i == 8 { Some(44100) } else if i == 11 { Some(12000) } else if i == 12 { Some(24000) }
    else if i == 13 { Some(48000) } else if i == 14 { Some(96000) } else if i == 15 { Some(192000) } else { None }
}

fn dts_bitrate(i: u32) -> (r: Option<u32>)
    ensures
        match r {
            Some(v) => dts_bitrate_of(i as int) == Some(v as int),
            None => dts_bitrate_of(i as int) is None,
        },
{
    let v: u32 = if i == 0 { 32000 } else if i == 1 { 56000 } else if i == 2 { 64000 } else if i == 3 { 96000 }
        else if i == 4 { 112000 } else if i == 5 { 128000 } else if i == 6 { 192000 } else if i == 7 { 224000 }
        else if i == 8 { 256000 } else if i == 9 { 320000 } else if i == 10 { 384000 } else if i == 11 { 448000 }
        else if i == 12 { 512000 } else if i == 13 { 576000 } else if i == 14 { 640000 } else if i == 15 { 768000 }
        else if i == 16 { 960000 } else if i == 17 { 1024000 } else if i == 18 { 1152000 } else if i == 19 { 1280000 }
        else if i == 20 { 1344000 } else if i == 21 { 1408000 } else if i == 22 { 1411200 } else if i == 23 { 1472000 }
        else if i == 24 { 1536000 } else if i == 25 { 1920000 } else if i == 26 { 2048000 } else if i == 27 { 3072000 }
        else if i == 28 { 3840000 } else {
        return None;
    };
    Some(v)
}

fn dtshd_channels(mask: u32) -> (r: Option<u16>)
    ensures
        match r {
            Some(v) => dtshd_channels_of(mask as int) == Some(v as int),
            None => dtshd_channels_of(mask as int) is None,
        },
{
    let m = mask - mask % 256;
    if m == 0x0f00 { Some(6) } else if m == 0x1f00 { Some(7) } else if m == 0x084b00 { Some(8) } else { None }
}

/// Reads the DTS core frame header at the start of `bytes`.
pub fn parse_dts_core(bytes: &[u8]) -> (r: Option<DtsCoreInfo>)
    ensures
        r == spec_dts_core(bytes@),
{
    if !looks_like_raw_dts(bytes) {
        return None;
    }
    let ghost d = bytes@;
    let mut bits = BitReader::at(bytes, 32);
    if bits.skip(28).is_none() {
        return None;
    }
    let audio_mode = match bits.read(6) { Some(v) => v, None => return None };
    let rate_index = match bits.read(4) { Some(v) => v, None => return None };
    let bitrate_index = match bits.read(5) { Some(v) => v, None => return None };
    if bits.skip(8).is_none() {
        return None;
    }
    let extension_audio = match bits.read(1) { Some(v) => v, None => return None } != 0;
    if bits.skip(1).is_none() {
        return None;
    }
    let lfe = match bits.read(2) { Some(v) => v, None => return None };
    assert(bits@ == (d, 87int));
    let mut channels = match dts_audio_mode_channels(audio_mode) { Some(c) => c, None => return None };
    if lfe != 0 {
        channels = channels + 1;
    }
    if extension_audio {
        channels = channels + 1;
    }
    let sample_rate = match dts_sample_rate(rate_index) { Some(v) => v, None => return None };
    Some(DtsCoreInfo { sample_rate, channels, bits_per_sample: 0, bitrate: dts_bitrate(bitrate_index) })
}

/// Probes a DTS-HD file by its `AUPR-HDR` chunk.
pub fn parse_dtshd(bytes: &[u8]) -> (r: Result<ProbeDocument>)
    ensures
        probe_outcome(r) == spec_parse_dtshd(bytes@),
{
    if !tag_at(bytes, 0, &[0x44u8, 0x54, 0x53, 0x48, 0x44, 0x48, 0x44, 0x52]) {
        return Err(invalid_data("missing DTS-HD header"));
    }
    let len = bytes.len();
    let mut pos: usize = 0;
    let mut found: Option<(usize, usize)> = None;
    while pos <= len && len - pos >= 16
        invariant_except_break
            len == bytes@.len(),
            pos <= len,
            found is None,
            dtshd_walk(bytes@, 0) == dtshd_walk(bytes@, pos as int),
        ensures
            match found {
                Some(r) => dtshd_walk(bytes@, 0) == Ok::<Option<(int, int)>, Failure>(Some((r.0 as int, r.1 as int)))
                    && r.0 <= r.1 <= len,
                None => dtshd_walk(bytes@, 0) == Ok::<Option<(int, int)>, Failure>(None),
            },
        decreases len - pos,
    {
        let size = match read_u64_be(bytes, pos + 8) { Ok(v) => v, Err(e) => return Err(e) } as usize;
        let start = pos + 16;
        if size > usize::MAX - start {
            return Err(invalid_data("DTS-HD chunk size overflow"));
        }
        let end = start + size;
        if end > len {
            let mut m = join3("invalid DTS-HD chunk ", lossy_text(&bytes[pos..pos + 8]).as_str(), " size ");
            push_decimal(&mut m, size as u64);
            return Err(RmpegError::InvalidData(m));
        }
        if tag_at(bytes, pos, &[0x41u8, 0x55, 0x50, 0x52, 0x2d, 0x48, 0x44, 0x52]) {
            found = Some((start, end));
            break;
        }
        pos = end;
    }
    let (start, end) = match found {
        Some(r) => r,
        None => return Err(invalid_data("DTS-HD file has no AUPR-HDR chunk")),
    };
    let aupr = &bytes[start..end];
    let alen = aupr.len();
    if alen < 20 {
        return Err(unexpected_eof(20, alen));
    }
    let kind = aupr[2];
    let sample_rate = match read_u24_be(aupr, 3) { Ok(v) => v, Err(e) => return Err(e) };
    let quanta = match read_u16_be(aupr, 14) { Ok(v) => v, Err(e) => return Err(e) };
    let mask = match read_u32_be(aupr, 16) { Ok(v) => v, Err(e) => return Err(e) };
    let channels = match dtshd_channels(mask) {
        Some(c) => c,
        None => return Err(RmpegError::InvalidData(with_hex("unsupported DTS-HD channel mask ", mask as u64))),
    };
    let bits: u16 = if kind == 4 || kind == 5 {
        if sample_rate == 192_000 && aupr[10] == 0x08 { 16 } else { 24 }
    } else {
        0
    };
    let duration = Seconds { num: (quanta as u128) * 384, den: sample_rate as u128 };
    Ok(audio_document("dtshd", sample_rate, channels, bits, duration))
}

/// Probes a raw DTS stream from its core header.
pub fn parse_raw_dts(bytes: &[u8]) -> (r: Result<ProbeDocument>)
    ensures
        probe_outcome(r) == spec_parse_raw_dts(bytes@),
{
    let core = match parse_dts_core(bytes) {
        Some(c) => c,
        None => return Err(invalid_data("unsupported or unrecognized DTS stream")),
    };
    let head_len = if bytes.len() < 8192 { bytes.len() } else { 8192 };
    let has_hd = find_tag(&bytes[0..head_len], &[0x64u8, 0x58, 0x20, 0x25]).is_some();
    if has_hd {
        let channels = if core.channels < 8 { 8 } else { core.channels };
        return Ok(audio_document("dts", core.sample_rate, channels, 24, zero_seconds()));
    }
    let bitrate = match core.bitrate {
        Some(b) => b,
        None => return Err(invalid_data("raw DTS stream has no known bitrate")),
    };
    let duration = Seconds { num: (bytes.len() as u128) * 8, den: bitrate as u128 };
    Ok(audio_document("dts", core.sample_rate, core.channels, core.bits_per_sample, duration))
}

/// The time stamp of a PES header, when it carries one.
fn parse_pes_pts(data: &[u8]) -> (r: Option<u64>)
    ensures
        match r {
            Some(v) => pes_pts(data@) == Some(v as int),
            None => pes_pts(data@) is None,
        },
{
    if data.len() < 14 || data[7] < 0x80 {
        return None;
    }
    Some((((data[9] / 2) % 8) as u64) * 0x4000_0000 + (data[10] as u64) * 0x40_0000
        + (((data[11] / 2) % 128) as u64) * 0x8000 + (data[12] as u64) * 128 + ((data[13] / 2) % 128) as u64)
}

/// The scan after the transport packet at `pos`.
fn scan_ts_packet(bytes: &[u8], pos: usize, st: TsScan) -> (r: Result<TsScan>)
    requires
        pos + 188 <= bytes@.len(),
    ensures
        outcome(r) == ts_packet(bytes@, pos as int, st),
{
    if bytes[pos] != 0x47 {
        return Err(invalid_data("invalid MPEG-TS packet sync"));
    }
    let unit_start = (bytes[pos + 1] / 64) % 2 == 1;
    let control = (bytes[pos + 3] / 16) % 4;
    let mut payload = pos + 4;
    if control == 2 || control == 3 {
        let length = bytes[payload] as usize;
        if payload > usize::MAX - (1 + length) {
            return Err(invalid_data("MPEG-TS adaptation overflow"));
        }
        payload = payload + 1 + length;
    }
    if (control == 1 || control == 3) && payload < pos + 188 {
        let data = &bytes[payload..pos + 188];
        if unit_start && data.len() >= 9 && tag_at(data, 0, &[0x00u8, 0x00, 0x01]) {
            let pts = parse_pes_pts(data);
            let start = 9 + data[8] as usize;
            if start <= data.len() {
                let pes = &data[start..data.len()];
                if let Some(sync) = find_tag(pes, &[0x7fu8, 0xfe, 0x80, 0x01]) {
                    let core = if st.2.is_none() { parse_dts_core(&pes[sync..pes.len()]) } else { st.2 };
                    return Ok(match pts {
                        Some(p) => (if st.0.is_none() { Some(p) } else { st.0 }, Some(p), core),
                        None => (st.0, st.1, core),
                    });
                }
            }
        }
    }
    Ok(st)
}

/// Probes an MPEG-TS stream that carries DTS audio.
pub fn parse_mpegts_dts(bytes: &[u8]) -> (r: Result<ProbeDocument>)
    ensures
        probe_outcome(r) == spec_parse_mpegts_dts(bytes@),
{
    if !looks_like_mpegts(bytes) {
        return Err(invalid_data("missing MPEG-TS packet sync"));
    }
    let len = bytes.len();
    let mut st: TsScan = (None, None, None);
    let mut pos: usize = 0;
    while pos <= len && len - pos >= 188
        invariant
            len == bytes@.len(),
            pos <= len,
            ts_walk(bytes@, 0, (None, None, None)) == ts_walk(bytes@, pos as int, st),
        decreases len - pos,
    {
        st = match scan_ts_packet(bytes, pos, st) { Ok(s) => s, Err(e) => return Err(e) };
        pos = pos + 188;
    }
    let core = match st.2 {
        Some(c) => c,
        None => return Err(invalid_data("MPEG-TS stream has no DTS PES payload")),
    };
    let duration = match (st.0, st.1) {
        (Some(f), Some(l)) => if l >= f { Seconds { num: (l - f) as u128, den: 90000 } } else { zero_seconds() },
        _ => zero_seconds(),
    };
    Ok(audio_document("mpegts", core.sample_rate, core.channels, core.bits_per_sample, duration))
}

fn read_u16_be(bytes: &[u8], offset: usize) -> (r: Result<u16>)
    requires
        offset <= usize::MAX - 2,
    ensures
        read_outcome16(r) == read_result(bytes@, offset as int, 2, u16_be(bytes@, offset as int)),
{
    if offset + 2 > bytes.len() {
        return Err(unexpected_eof(offset + 2, bytes.len()));
    }
    Ok(be16(bytes, offset))
}

fn read_u32_be(bytes: &[u8], offset: usize) -> (r: Result<u32>)
    requires
        offset <= usize::MAX - 4,
    ensures
        read_outcome32(r) == read_result(bytes@, offset as int, 4, u32_be(bytes@, offset as int)),
{
    if offset + 4 > bytes.len() {
        return Err(unexpected_eof(offset + 4, bytes.len()));
    }
    Ok(be32(bytes, offset))
}

fn read_u64_be(bytes: &[u8], offset: usize) -> (r: Result<u64>)
    requires
        offset <= usize::MAX - 8,
    ensures
        read_outcome64(r) == read_result(bytes@, offset as int, 8, u64_be(bytes@, offset as int)),
{
    if offset + 8 > bytes.len() {
        return Err(unexpected_eof(offset + 8, bytes.len()));
    }
    Ok(be64(bytes, offset))
}

} // verus!
