use vstd::prelude::*;
use crate::bytes::{sat, sat_add, first_tag, find_tag, has_tag, le16, le32, tag_at, u16_le, u32_le};
use crate::error::{eof, failure, invalid_data, unexpected_eof, Failure, Result};
use crate::metadata::{audio_stream, probe_outcome, secs, Probe, ProbeDocument, Seconds, StreamMetadata};
use crate::bits::{bits_fit, msb, BitReader};

verus! {

/// What an AAC (or MPEG-4 ALS) decoder configuration tells of the audio.
#[derive(Debug, Clone, Copy, PartialEq, Eq)]
pub struct AacAudioConfig {
    pub codec_name: &'static str,
    pub sample_rate: Option<u32>,
    pub channels: Option<u16>,
    pub bits_per_sample: Option<u16>,
}

/// One ADTS frame header.
#[derive(Debug, Clone, Copy, PartialEq, Eq)]
pub struct AdtsFrame {
    pub frame_len: usize,
    pub sample_rate: u32,
    pub channels: u16,
    pub samples: u32,
}

/// The audio format of a WAVE header embedded in an ALS configuration.
#[derive(Debug, Clone, Copy, PartialEq, Eq)]
pub struct AlsWaveMetadata {
    pub sample_rate: Option<u32>,
    pub channels: Option<u16>,
    pub bits_per_sample: Option<u16>,
}

/// An SBR sync extension: the extension's sample rate and whether PS is signalled.
#[derive(Debug, Clone, Copy, PartialEq, Eq)]
pub struct SyncExtension {
    pub sample_rate: u32,
    pub ps_present: bool,
}

/// The sample rate of sampling-frequency index `i`.
pub open spec fn aac_rate(i: int) -> Option<u32> {
    if 0 <= i < 13 {
        Some(seq![96000u32, 88200, 64000, 48000, 44100, 32000, 24000, 22050, 16000, 12000, 11025, 8000, 7350][i])
    } else {
        None
    }
}

/// The channel count of channel configuration `c`.
pub open spec fn aac_channels(c: int) -> Option<u16> {
    if 1 <= c <= 6 { Some(c as u16) } else if c == 7 { Some(8) } else { None }
}

/// `n` bits at `pos` and the position after them, when they lie inside `d`.
pub open spec fn rd(d: Seq<u8>, pos: int, n: int) -> Option<(int, int)> {
    if bits_fit(d, pos, n) { Some((msb(d, pos, n as nat), pos + n)) } else { None }
}

/// A parse position and whether a read has failed there; once failed, later steps
/// leave it as it is.
pub type Cursor = (int, bool);

/// The cursor after skipping `n` bits.
pub open spec fn cur_skip(d: Seq<u8>, c: Cursor, n: int) -> Cursor {
    if c.1 { c } else if bits_fit(d, c.0, n) { (c.0 + n, false) } else { (c.0, true) }
}

/// An audio object type at `pos` (five bits, or six more after the escape value 31).
pub open spec fn spec_aot(d: Seq<u8>, pos: int) -> Option<(int, int)> {
    match rd(d, pos, 5) {
        None => None,
        Some((v, p)) => if v == 31 {
            match rd(d, p, 6) {
                None => None,
                Some((w, q)) => Some((32 + w, q)),
            }
        } else {
            Some((v, p))
        },
    }
}

/// A sampling frequency at `pos`: an index, or an explicit 24-bit rate after index 15.
pub open spec fn spec_sfreq(d: Seq<u8>, pos: int) -> Option<(Option<u32>, int)> {
    match rd(d, pos, 4) {
        None => None,
        Some((i, p)) => if i == 15 {
            match rd(d, p, 24) {
                None => None,
                Some((v, q)) => Some((Some(v as u32), q)),
            }
        } else {
            Some((aac_rate(i), p))
        },
    }
}

/// `a + b`, held at `u16::MAX`.
pub open spec fn sat16(a: int, b: int) -> int {
    if a + b > 0xffff { 0xffff } else { a + b }
}

/// `n` channel elements from cursor `c` (a flag bit and a four-bit tag each, two
/// channels for a pair), counted onto `acc`.
pub open spec fn pce_elements(d: Seq<u8>, c: Cursor, n: nat, acc: int) -> (Cursor, int)
    decreases n,
{
    if n == 0 || c.1 {
        (c, acc)
    } else {
        let pair = msb(d, c.0, 1) != 0;
        let c2 = cur_skip(d, cur_skip(d, c, 1), 4);
        pce_elements(d, c2, (n - 1) as nat, sat16(acc, if pair { 2 } else { 1 }))
    }
}

/// `n` skips of `w` bits from cursor `c`.
pub open spec fn cur_skips(d: Seq<u8>, c: Cursor, n: nat, w: int) -> Cursor
    decreases n,
{
    if n == 0 || c.1 { c } else { cur_skips(d, cur_skip(d, c, w), (n - 1) as nat, w) }
}

/// The cursor at the next byte boundary.
pub open spec fn cur_align(c: Cursor) -> Cursor {
    if c.1 || c.0 % 8 == 0 { c } else { (c.0 + 8 - c.0 % 8, false) }
}

/// A flag bit at cursor `c`, followed by `w` bits when it is set.
pub open spec fn cur_flagged(d: Seq<u8>, c: Cursor, w: int) -> Cursor {
    let c1 = cur_skip(d, c, 1);
    if !c1.1 && msb(d, c.0, 1) != 0 { cur_skip(d, c1, w) } else { c1 }
}

/// The fixed part of a program config element at `pos`: the cursor after it, then the
/// counts of front, side and back elements, LFE channels, data elements and coupling
/// channels it announces.
pub open spec fn pce_head(d: Seq<u8>, pos: int) -> (Cursor, int, int, int, int, int, int) {
    let c1 = cur_skip(d, cur_skip(d, cur_skip(d, (pos, false), 4), 2), 4);
    let front = msb(d, c1.0, 4);
    let c2 = cur_skip(d, c1, 4);
    let side = msb(d, c2.0, 4);
    let c3 = cur_skip(d, c2, 4);
    let back = msb(d, c3.0, 4);
    let c4 = cur_skip(d, c3, 4);
    let lfe = msb(d, c4.0, 2);
    let c5 = cur_skip(d, c4, 2);
    let assoc = msb(d, c5.0, 3);
    let c6 = cur_skip(d, c5, 3);
    let cc = msb(d, c6.0, 4);
    let c7 = cur_skip(d, c6, 4);
    let c8 = cur_flagged(d, cur_flagged(d, cur_flagged(d, c7, 4), 4), 3);
    (c8, front, side, back, lfe, assoc, cc)
}

/// The element lists of a program config element from cursor `c`: the cursor after
/// them and the channels they count.
pub open spec fn pce_lists(d: Seq<u8>, c: Cursor, front: int, side: int, back: int, lfe: int, assoc: int, cc: int)
    -> (Cursor, int)
{
    let (c9, n1) = pce_elements(d, c, front as nat, 0);
    let (c10, n2) = pce_elements(d, c9, side as nat, n1);
    let (c11, n3) = pce_elements(d, c10, back as nat, n2);
    let c12 = cur_skips(d, c11, lfe as nat, 4);
    let c13 = cur_skips(d, cur_skips(d, c12, assoc as nat, 4), cc as nat, 5);
    (c13, sat16(n3, lfe))
}

/// The comment field that ends a program config element, from cursor `c`.
pub open spec fn pce_comment(d: Seq<u8>, c: Cursor) -> Cursor {
    let c14 = cur_align(c);
    let comment = msb(d, c14.0, 8);
    cur_skip(d, cur_skip(d, c14, 8), comment * 8)
}

/// A program config element at `pos`: its channel count, when it reads to its end,
/// and the position where reading stopped.
pub open spec fn spec_pce(d: Seq<u8>, pos: int) -> (Option<u16>, int) {
    let h = pce_head(d, pos);
    let l = pce_lists(d, h.0, h.1, h.2, h.3, h.4, h.5, h.6);
    let e = pce_comment(d, l.0);
    if e.1 { (None, e.0) } else { (Some(l.1 as u16), e.0) }
}

/// The GA-specific configuration at `pos` for channel configuration `cc`: the channel
/// count afterwards (from a program config element when `cc` is 0) and the position
/// where reading stopped.
pub open spec fn spec_ga(d: Seq<u8>, pos: int, cc: int, channels: Option<u16>) -> (Option<u16>, int) {
    let c1 = cur_skip(d, (pos, false), 1);
    let c2 = cur_skip(d, c1, 1);
    let c3 = if !c2.1 && msb(d, c1.0, 1) == 1 { cur_skip(d, c2, 14) } else { c2 };
    let c4 = cur_skip(d, c3, 1);
    if c4.1 {
        (channels, c4.0)
    } else if cc == 0 {
        spec_pce(d, c4.0)
    } else {
        (channels, c4.0)
    }
}

#[verifier::opaque]
/// What the search for a sync extension decides at bit `pos`: `None` to go on with the
/// next bit, or the answer: an extension (the 11-bit sync value, object type 5 and a set
/// flag, then the extension's rate and an optional PS flag behind its own sync value),
/// or none when a read or the rate fails.
pub open spec fn sync_at(d: Seq<u8>, pos: int) -> Option<Option<SyncExtension>> {
    if msb(d, pos, 11) != 0x2b7 {
        None
    } else {
        match spec_aot(d, pos + 11) {
            None => Some(None),
            Some((ot, p)) => if ot != 5 {
                None
            } else {
                match rd(d, p, 1) {
                    None => Some(None),
                    Some((flag, q)) => if flag == 0 {
                        None
                    } else {
                        match spec_sfreq(d, q) {
                            None => Some(None),
                            Some((None, _)) => Some(None),
                            Some((Some(rate), r)) => Some(Some(SyncExtension {
                                sample_rate: rate,
                                ps_present: bits_fit(d, r, 12) && msb(d, r, 11) == 0x548 && msb(d, r + 11, 1) != 0,
                            })),
                        }
                    },
                }
            },
        }
    }
}

/// The first SBR sync extension found searching bit by bit from `pos`, while 17 bits
/// remain.
pub open spec fn spec_sync_ext(d: Seq<u8>, pos: int) -> Option<SyncExtension>
    decreases d.len() * 8 - pos,
{
    if pos < 0 || !bits_fit(d, pos, 17) {
        None
    } else {
        match sync_at(d, pos) {
            Some(r) => r,
            None => spec_sync_ext(d, pos + 1),
        }
    }
}

/// The WAVE `fmt ` chunk found walking RIFF chunks from `pos`.
pub open spec fn als_walk(b: Seq<u8>, pos: int) -> Option<AlsWaveMetadata>
    decreases b.len() - pos,
{
    let size = u32_le(b, pos + 4);
    let start = pos + 8;
    let end = start + size;
    if pos < 0 || pos + 8 > b.len() {
        None
    } else if end > usize::MAX || end > b.len() {
        None
    } else if has_tag(b, pos, seq![0x66u8, 0x6d, 0x74, 0x20]) && size >= 16 {
        Some(AlsWaveMetadata {
            sample_rate: Some(u32_le(b, start + 4) as u32),
            channels: Some(u16_le(b, start + 2) as u16),
            bits_per_sample: Some(u16_le(b, start + 14) as u16),
        })
    } else if end + size % 2 > b.len() {
        None
    } else {
        als_walk(b, end + size % 2)
    }
}

/// The WAVE format of the first RIFF header in `b`.
pub open spec fn spec_als_wave(b: Seq<u8>) -> Option<AlsWaveMetadata> {
    match first_tag(b, seq![0x52u8, 0x49, 0x46, 0x46]) {
        None => None,
        Some(r) => als_walk(b, r + 12),
    }
}

/// `a`, or `b` when `a` is empty.
pub open spec fn or_else<T>(a: Option<T>, b: Option<T>) -> Option<T> {
    if a is Some { a } else { b }
}

/// Two channels in place of one when SBR is present.
pub open spec fn sbr_channels(sbr: bool, c: Option<u16>) -> Option<u16> {
    if sbr && c == Some(1u16) { Some(2u16) } else { c }
}

/// The AudioSpecificConfig `d`: object type, rate and channel configuration; an SBR or
/// PS object type's own rate; an ALS configuration's embedded WAVE format; a GA
/// configuration's program config element and a trailing sync extension.
pub open spec fn spec_asc(d: Seq<u8>) -> Option<AacAudioConfig> {
    match spec_aot(d, 0) {
        None => None,
        Some((ot, p1)) => match spec_sfreq(d, p1) {
            None => None,
            Some((rate, p2)) => match rd(d, p2, 4) {
                None => None,
                Some((cc, p3)) => {
                    let ch = aac_channels(cc);
                    if ot == 5 || ot == 29 {
                        match spec_sfreq(d, p3) {
                            None => None,
                            Some((rate2, p4)) => match spec_aot(d, p4) {
                                None => None,
                                Some(_) => Some(AacAudioConfig {
                                    codec_name: "aac",
                                    sample_rate: rate2,
                                    channels: sbr_channels(true, if ot == 29 { Some(2u16) } else { ch }),
                                    bits_per_sample: None,
                                }),
                            },
                        }
                    } else if ot == 36 {
                        match spec_als_wave(d) {
                            Some(a) => Some(AacAudioConfig {
                                codec_name: "mp4als",
                                sample_rate: or_else(a.sample_rate, rate),
                                channels: or_else(a.channels, ch),
                                bits_per_sample: a.bits_per_sample,
                            }),
                            None => Some(AacAudioConfig { codec_name: "aac", sample_rate: rate, channels: ch, bits_per_sample: None }),
                        }
                    } else {
                        let (ch2, p4) = spec_ga(d, p3, cc, ch);
                        match spec_sync_ext(d, p4) {
                            None => Some(AacAudioConfig { codec_name: "aac", sample_rate: rate, channels: ch2, bits_per_sample: None }),
                            Some(e) => Some(AacAudioConfig {
                                codec_name: "aac",
                                sample_rate: Some(e.sample_rate),
                                channels: sbr_channels(true, if e.ps_present { Some(2u16) } else { ch2 }),
                                bits_per_sample: None,
                            }),
                        }
                    }
                },
            },
        },
    }
}

/// The size of the ID3v2 tag at `pos` (header, body and footer) when its size bytes
/// are synchsafe.
pub open spec fn id3_tag_size(b: Seq<u8>, pos: int) -> int {
    10 + b[pos + 6] * 0x20_0000 + b[pos + 7] * 0x4000 + b[pos + 8] * 0x80 + b[pos + 9]
        + (if (b[pos + 5] / 16) % 2 == 1 { 10int } else { 0int })
}

/// The position after the ID3v2 tags that follow one another from `pos`.
pub open spec fn id3_walk(b: Seq<u8>, pos: int) -> core::result::Result<int, Failure>
    decreases b.len() - pos,
{
    if pos < 0 || !has_tag(b, pos, seq![0x49u8, 0x44, 0x33]) {
        Ok(pos)
    } else if b.len() - pos < 10 {
        Err(eof(sat(pos + 10), b.len() as int))
    } else if b[pos + 6] >= 128 || b[pos + 7] >= 128 || b[pos + 8] >= 128 || b[pos + 9] >= 128 {
        Err(Failure::InvalidData)
    } else if pos + id3_tag_size(b, pos) > usize::MAX {
        Err(Failure::InvalidData)
    } else if pos + id3_tag_size(b, pos) > b.len() {
        Ok(pos + id3_tag_size(b, pos))
    } else {
        id3_walk(b, pos + id3_tag_size(b, pos))
    }
}

/// The ADTS header at the start of `h`: sync bits, layer 0, a rate index and channel
/// configuration that name a rate and a count, and a frame length that covers the
/// header (7 bytes, or 9 with a CRC).
pub open spec fn spec_adts_header(h: Seq<u8>) -> Option<AdtsFrame> {
    let rate = aac_rate(((h[2] / 4) % 16) as int);
    let ch = aac_channels((h[2] % 2) * 4 + h[3] / 64);
    let frame_len = (h[3] % 4) * 2048 + h[4] * 8 + h[5] / 32;
    let header_len = if h[1] % 2 == 1 { 7int } else { 9int };
    if h.len() < 7 || h[0] != 0xff || h[1] < 0xf0 || (h[1] / 2) % 4 != 0 {
        None
    } else {
        match (rate, ch) {
            (Some(r), Some(c)) => if frame_len < header_len {
                None
            } else {
                Some(AdtsFrame { frame_len: frame_len as usize, sample_rate: r, channels: c,
                    samples: ((h[6] % 4 + 1) * 1024) as u32 })
            },
            _ => None,
        }
    }
}

/// The first frame and the samples counted walking ADTS frames from `pos`, skipping
/// ID3v2 tags between them.
pub open spec fn adts_walk(b: Seq<u8>, pos: int, first: Option<AdtsFrame>, samples: int)
    -> core::result::Result<(Option<AdtsFrame>, int), Failure>
    decreases b.len() - pos,
{
    if pos < 0 || pos + 7 > b.len() {
        Ok((first, samples))
    } else if has_tag(b, pos, seq![0x49u8, 0x44, 0x33]) {
        match id3_walk(b.subrange(pos, b.len() as int), 0) {
            Err(e) => Err(e),
            Ok(k) => if k < 10 || pos + k + 7 > b.len() {
                Ok((first, samples))
            } else {
                adts_walk(b, pos + k, first, samples)
            },
        }
    } else {
        match spec_adts_header(b.subrange(pos, pos + 7)) {
            None => Err(Failure::InvalidData),
            Some(f) => if pos + f.frame_len > b.len() {
                Err(eof(sat(pos + f.frame_len), b.len() as int))
            } else {
                adts_walk(b, pos + f.frame_len, if first is None { Some(f) } else { first }, samples + f.samples)
            },
        }
    }
}

/// The probe of an ADTS AAC stream: the first frame's rate and channels, and the
/// duration of all the frames' samples.
pub open spec fn spec_parse_adts_aac(b: Seq<u8>) -> core::result::Result<Probe, Failure> {
    match id3_walk(b, 0) {
        Err(e) => Err(e),
        Ok(start) => match adts_walk(b, start, None, 0) {
            Err(e) => Err(e),
            Ok((None, _)) => Err(Failure::InvalidData),
            Ok((Some(f), n)) => Ok(Probe { format: "aac", streams: seq![audio_stream(0, "aac", f.sample_rate as int,
                f.channels as int, 0, secs(n, f.sample_rate as int))] }),
        },
    }
}

/// Whether an ADTS header follows the leading ID3v2 tags of `b`.
pub open spec fn spec_looks_like_adts_aac(b: Seq<u8>) -> bool {
    match id3_walk(b, 0) {
        Err(_) => false,
        Ok(p) => p + 7 <= b.len() && spec_adts_header(b.subrange(p, p + 7)) is Some,
    }
}

/// The position after the ID3v2 tags at the start of `bytes`.
fn id3v2_skip(bytes: &[u8]) -> (r: Result<usize>)
    ensures
        match r {
            Ok(p) => id3_walk(bytes@, 0) == Ok::<int, Failure>(p as int),
            Err(e) => id3_walk(bytes@, 0) == Err::<int, Failure>(failure(e)),
        },
{
    let len = bytes.len();
    let mut pos: usize = 0;
    loop
        invariant
            len == bytes@.len(),
            id3_walk(bytes@, 0) == id3_walk(bytes@, pos as int),
        decreases len - pos,
    {
        if pos > len || len - pos < 3 || !tag_at(bytes, pos, &[0x49u8, 0x44, 0x33]) {
            return Ok(pos);
        }
        if len - pos < 10 {
            return Err(unexpected_eof(sat_add(pos, 10), len));
        }
        if bytes[pos + 6] >= 0x80 || bytes[pos + 7] >= 0x80 || bytes[pos + 8] >= 0x80 || bytes[pos + 9] >= 0x80 {
            return Err(invalid_data("invalid ID3 synchsafe size"));
        }
        let footer: usize = if (bytes[pos + 5] / 16) % 2 == 1 { 10 } else { 0 };
        let size: usize = (bytes[pos + 6] as usize) * 0x20_0000 + (bytes[pos + 7] as usize) * 0x4000
            + (bytes[pos + 8] as usize) * 0x80 + bytes[pos + 9] as usize;
        let step = 10 + size + footer;
        if step > usize::MAX - pos {
            return Err(invalid_data("ID3 size overflow"));
        }
        let next = pos + step;
        if next > len {
            return Ok(next);
        }
        pos = next;
    }
}

/// Reads the ADTS header at the start of `header`.
fn parse_adts_header(header: &[u8]) -> (r: Option<AdtsFrame>)
    ensures
        r == spec_adts_header(header@),
{
    if header.len() < 7 {
        return None;
    }
    if header[0] != 0xff || header[1] < 0xf0 || (header[1] / 2) % 4 != 0 {
        return None;
    }
    let sample_rate = match sample_rate((header[2] / 4) % 16) { Some(r) => r, None => return None };
    let channels = match channels((header[2] % 2) * 4 + header[3] / 64) { Some(c) => c, None => return None };
    let frame_len = ((header[3] % 4) as usize) * 2048 + (header[4] as usize) * 8 + (header[5] / 32) as usize;
    let header_len: usize = if header[1] % 2 == 1 { 7 } else { 9 };
    if frame_len < header_len {
        return None;
    }
    let samples = (((header[6] % 4) as u32) + 1) * 1024;
    Some(AdtsFrame { frame_len, sample_rate, channels, samples })
}

/// Probes an ADTS AAC stream.
pub fn parse_adts_aac(bytes: &[u8]) -> (r: Result<ProbeDocument>)
    ensures
        probe_outcome(r) == spec_parse_adts_aac(bytes@),
{
    let len = bytes.len();
    let mut pos = match id3v2_skip(bytes) { Ok(p) => p, Err(e) => return Err(e) };
    let mut first: Option<AdtsFrame> = None;
    let mut samples: u128 = 0;
    while pos <= len && len - pos >= 7
        invariant_except_break
            len == bytes@.len(),
            samples <= pos * 4096,
            spec_parse_adts_aac(bytes@) == (match adts_walk(bytes@, pos as int, first, samples as int) {
                Err(e) => Err(e),
                Ok((None, _)) => Err(Failure::InvalidData),
                Ok((Some(f), n)) => Ok(Probe { format: "aac", streams: seq![audio_stream(0, "aac", f.sample_rate as int,
                    f.channels as int, 0, secs(n, f.sample_rate as int))] }),
            }),
        ensures
            spec_parse_adts_aac(bytes@) == (match first {
                None => Err(Failure::InvalidData),
                Some(f) => Ok(Probe { format: "aac", streams: seq![audio_stream(0, "aac", f.sample_rate as int,
                    f.channels as int, 0, secs(samples as int, f.sample_rate as int))] }),
            }),
        decreases len - pos,
    {
        if tag_at(bytes, pos, &[0x49u8, 0x44, 0x33]) {
            let k = match id3v2_skip(&bytes[pos..len]) { Ok(k) => k, Err(e) => return Err(e) };
            if k < 10 || k > len - pos || len - pos - k < 7 {
                break;
            }
            pos = pos + k;
            continue;
        }
        let frame = match parse_adts_header(&bytes[pos..pos + 7]) {
            Some(f) => f,
            None => return Err(invalid_data("invalid ADTS AAC frame")),
        };
        if frame.frame_len > len - pos {
            return Err(unexpected_eof(sat_add(pos, frame.frame_len), len));
        }
        if first.is_none() {
            first = Some(frame);
        }
        samples = samples + frame.samples as u128;
        pos = pos + frame.frame_len;
    }
    let first = match first {
        Some(f) => f,
        None => return Err(invalid_data("no ADTS AAC frames found")),
    };
    let duration = Seconds { num: samples, den: first.sample_rate as u128 };
    Ok(ProbeDocument::single("aac", StreamMetadata::audio(0, "aac", first.sample_rate, first.channels, 0, duration)))
}

/// Whether `bytes` holds an ADTS header after its leading ID3v2 tags.
pub fn looks_like_adts_aac(bytes: &[u8]) -> (r: bool)
    ensures
        r == spec_looks_like_adts_aac(bytes@),
{
    let pos = match id3v2_skip(bytes) { Ok(p) => p, Err(_) => return false };
    pos <= bytes.len() && bytes.len() - pos >= 7 && parse_adts_header(&bytes[pos..pos + 7]).is_some()
}

/// The sample rate of sampling-frequency index `i`.
fn sample_rate(i: u8) -> (r: Option<u32>)
    ensures
        r == aac_rate(i as int),
{
    let v: u32 = if i == 0 { 96000 } else if i == 1 { 88200 } else if i == 2 { 64000 } else if i == 3 { 48000 }
        else if i == 4 { 44100 } else if i == 5 { 32000 } else if i == 6 { 24000 } else if i == 7 { 22050 }
        else if i == 8 { 16000 } else if i == 9 { 12000 } else if i == 10 { 11025 } else if i == 11 { 8000 }
        else if i == 12 { 7350 } else {
        return None;
    };
    Some(v)
}

/// The channel count of channel configuration `config`.
fn channels(config: u8) -> (r: Option<u16>)
    ensures
        r == aac_channels(config as int),
{
    if 1 <= config && config <= 6 { Some(config as u16) } else if config == 7 { Some(8) } else { None }
}

/// Reads an audio object type.
fn read_audio_object_type(bits: &mut BitReader) -> (r: Option<u8>)
    requires
        0 <= old(bits)@.1 <= old(bits)@.0.len() * 8,
    ensures
        0 <= final(bits)@.1 <= final(bits)@.0.len() * 8,
        final(bits)@.0 == old(bits)@.0,
        match spec_aot(old(bits)@.0, old(bits)@.1) {
            None => r is None,
            Some((v, p)) => r is Some && r->0 as int == v && final(bits)@.1 == p,
        },
{
    let ghost d = bits@.0;
    let ghost p0 = bits@.1;
    let object_type = match bits.read(5) { Some(v) => v, None => return None };
    proof {
        crate::bits::lemma_msb_bound(d, p0, 5);
        reveal_with_fuel(crate::bits::two_pow, 7);
    }
    if object_type == 31 {
        let more = match bits.read(6) { Some(v) => v, None => return None };
        proof {
            crate::bits::lemma_msb_bound(d, p0 + 5, 6);
        }
        Some(32 + more as u8)
    } else {
        Some(object_type as u8)
    }
}

/// Reads a sampling frequency: `Some(None)` for an index that names no rate.
fn read_sampling_frequency(bits: &mut BitReader) -> (r: Option<Option<u32>>)
    requires
        0 <= old(bits)@.1 <= old(bits)@.0.len() * 8,
    ensures
        0 <= final(bits)@.1 <= final(bits)@.0.len() * 8,
        final(bits)@.0 == old(bits)@.0,
        match spec_sfreq(old(bits)@.0, old(bits)@.1) {
            None => r is None,
            Some((v, p)) => r == Some(v) && final(bits)@.1 == p,
        },
{
    let ghost d = bits@.0;
    let ghost p0 = bits@.1;
    let index = match bits.read(4) { Some(v) => v, None => return None };
    proof {
        crate::bits::lemma_msb_bound(d, p0, 4);
        reveal_with_fuel(crate::bits::two_pow, 5);
    }
    if index == 15 {
        let rate = match bits.read(24) { Some(v) => v, None => return None };
        Some(Some(rate))
    } else {
        Some(sample_rate(index as u8))
    }
}

/// Skips `n` bits at cursor `c`, telling whether they were there.
fn skip_at(bits: &mut BitReader, n: usize, Ghost(c): Ghost<Cursor>) -> (ok: bool)
    requires
        !c.1,
        old(bits)@.1 == c.0,
        0 <= old(bits)@.1 <= old(bits)@.0.len() * 8,
    ensures
        final(bits)@.0 == old(bits)@.0,
        0 <= final(bits)@.1 <= final(bits)@.0.len() * 8,
        (final(bits)@.1, !ok) == cur_skip(old(bits)@.0, c, n as int),
{
    bits.skip(n).is_some()
}

/// Reads the channel elements of one group of a program config element.
fn read_pce_elements(bits: &mut BitReader, n: u32, acc: u16, Ghost(c): Ghost<Cursor>) -> (r: Option<u16>)
    requires
        !c.1,
        old(bits)@.1 == c.0,
        0 <= old(bits)@.1 <= old(bits)@.0.len() * 8,
    ensures
        final(bits)@.0 == old(bits)@.0,
        0 <= final(bits)@.1 <= final(bits)@.0.len() * 8,
        ({
            let (c2, total) = pce_elements(old(bits)@.0, c, n as nat, acc as int);
            &&& final(bits)@.1 == c2.0
            &&& (r is None <==> c2.1)
            &&& r is Some ==> r->0 == total
        }),
    decreases n,
{
    if n == 0 {
        return Some(acc);
    }
    let ghost d = bits@.0;
    proof {
        reveal_with_fuel(pce_elements, 2);
    }
    let pair = match bits.read(1) { Some(v) => v, None => return None } != 0;
    if bits.skip(4).is_none() {
        return None;
    }
    let add: u16 = if pair { 2 } else { 1 };
    let next = if acc > 0xffff - add { 0xffff } else { acc + add };
    read_pce_elements(bits, n - 1, next, Ghost((c.0 + 5, false)))
}

/// Skips `n` groups of `w` bits.
fn skip_groups(bits: &mut BitReader, n: u32, w: usize, Ghost(c): Ghost<Cursor>) -> (ok: bool)
    requires
        !c.1,
        old(bits)@.1 == c.0,
        0 <= old(bits)@.1 <= old(bits)@.0.len() * 8,
    ensures
        final(bits)@.0 == old(bits)@.0,
        0 <= final(bits)@.1 <= final(bits)@.0.len() * 8,
        (final(bits)@.1, !ok) == cur_skips(old(bits)@.0, c, n as nat, w as int),
    decreases n,
{
    if n == 0 {
        return true;
    }
    let ghost d = bits@.0;
    proof {
        reveal_with_fuel(cur_skips, 2);
    }
    if bits.skip(w).is_none() {
        return false;
    }
    skip_groups(bits, n - 1, w, Ghost((c.0 + w, false)))
}

/// Reads the fixed part of a program config element.
fn read_pce_head(bits: &mut BitReader) -> (r: Option<(u32, u32, u32, u32, u32, u32)>)
    requires
        0 <= old(bits)@.1 <= old(bits)@.0.len() * 8,
    ensures
        final(bits)@.0 == old(bits)@.0,
        0 <= final(bits)@.1 <= final(bits)@.0.len() * 8,
        ({
            let h = pce_head(old(bits)@.0, old(bits)@.1);
            match r {
                None => h.0 == (final(bits)@.1, true),
                Some(t) => h == ((final(bits)@.1, false), t.0 as int, t.1 as int, t.2 as int, t.3 as int,
                    t.4 as int, t.5 as int) && t.3 < 4 && t.4 < 8 && t.5 < 16 && t.0 < 16 && t.1 < 16 && t.2 < 16,
            }
        }),
{
    let ghost d = bits@.0;
    if bits.skip(4).is_none() {
        return None;
    }
    if bits.skip(2).is_none() {
        return None;
    }
    if bits.skip(4).is_none() {
        return None;
    }
    let ghost p1 = bits@.1;
    let front = match bits.read(4) { Some(v) => v, None => return None };
    let side = match bits.read(4) { Some(v) => v, None => return None };
    let back = match bits.read(4) { Some(v) => v, None => return None };
    let lfe = match bits.read(2) { Some(v) => v, None => return None };
    let assoc_data = match bits.read(3) { Some(v) => v, None => return None };
    let cc = match bits.read(4) { Some(v) => v, None => return None };
    proof {
        crate::bits::lemma_msb_bound(d, p1, 4);
        crate::bits::lemma_msb_bound(d, p1 + 4, 4);
        crate::bits::lemma_msb_bound(d, p1 + 8, 4);
        crate::bits::lemma_msb_bound(d, p1 + 12, 2);
        crate::bits::lemma_msb_bound(d, p1 + 14, 3);
        crate::bits::lemma_msb_bound(d, p1 + 17, 4);
        reveal_with_fuel(crate::bits::two_pow, 5);
    }
    if match bits.read(1) { Some(v) => v, None => return None } != 0 {
        if bits.skip(4).is_none() {
            return None;
        }
    }
    if match bits.read(1) { Some(v) => v, None => return None } != 0 {
        if bits.skip(4).is_none() {
            return None;
        }
    }
    if match bits.read(1) { Some(v) => v, None => return None } != 0 {
        if bits.skip(3).is_none() {
            return None;
        }
    }
    Some((front, side, back, lfe, assoc_data, cc))
}

/// Reads the element lists of a program config element.
fn read_pce_lists(bits: &mut BitReader, front: u32, side: u32, back: u32, lfe: u32, assoc: u32, cc: u32,
    Ghost(c): Ghost<Cursor>) -> (r: Option<u16>)
    requires
        !c.1,
        old(bits)@.1 == c.0,
        0 <= old(bits)@.1 <= old(bits)@.0.len() * 8,
        lfe < 4,
    ensures
        final(bits)@.0 == old(bits)@.0,
        0 <= final(bits)@.1 <= final(bits)@.0.len() * 8,
        ({
            let l = pce_lists(old(bits)@.0, c, front as int, side as int, back as int, lfe as int, assoc as int, cc as int);
            &&& l.0 == (final(bits)@.1, r is None)
            &&& r is Some ==> r->0 == l.1
        }),
{
    let n1 = match read_pce_elements(bits, front, 0, Ghost(c)) { Some(v) => v, None => return None };
    let ghost c9: Cursor = (bits@.1, false);
    let n2 = match read_pce_elements(bits, side, n1, Ghost(c9)) { Some(v) => v, None => return None };
    let ghost c10: Cursor = (bits@.1, false);
    let n3 = match read_pce_elements(bits, back, n2, Ghost(c10)) { Some(v) => v, None => return None };
    let ghost c11: Cursor = (bits@.1, false);
    if !skip_groups(bits, lfe, 4, Ghost(c11)) {
        return None;
    }
    let channels: u16 = if n3 as u32 + lfe > 0xffff { 0xffff } else { n3 + lfe as u16 };
    let ghost c12: Cursor = (bits@.1, false);
    if !skip_groups(bits, assoc, 4, Ghost(c12)) {
        return None;
    }
    let ghost c12b: Cursor = (bits@.1, false);
    if !skip_groups(bits, cc, 5, Ghost(c12b)) {
        return None;
    }
    Some(channels)
}

/// Reads a program config element: the channel count of its front, side and back
/// elements and LFE channels, when it reads to the end of its comment.
fn parse_program_config_element(bits: &mut BitReader) -> (r: Option<u16>)
    requires
        0 <= old(bits)@.1 <= old(bits)@.0.len() * 8,
    ensures
        final(bits)@.0 == old(bits)@.0,
        0 <= final(bits)@.1 <= final(bits)@.0.len() * 8,
        (r, final(bits)@.1) == spec_pce(old(bits)@.0, old(bits)@.1),
{
    let ghost d = bits@.0;
    let (front, side, back, lfe, assoc_data, cc) = match read_pce_head(bits) { Some(t) => t, None => return None };
    let ghost c8: Cursor = (bits@.1, false);
    let channels = match read_pce_lists(bits, front, side, back, lfe, assoc_data, cc, Ghost(c8)) {
        Some(v) => v,
        None => return None,
    };
    bits.align_to_byte();
    let ghost p14 = bits@.1;
    let comment_len = match bits.read(8) { Some(v) => v, None => return None };
    proof {
        crate::bits::lemma_msb_bound(d, p14, 8);
        reveal_with_fuel(crate::bits::two_pow, 9);
    }
    if bits.skip((comment_len as usize) * 8).is_none() {
        return None;
    }
    Some(channels)
}

/// Reads a GA-specific configuration; with channel configuration 0 the channel count
/// becomes that of its program config element.
fn parse_ga_specific_config(bits: &mut BitReader, channel_config: u32, channels: &mut Option<u16>)
    requires
        0 <= old(bits)@.1 <= old(bits)@.0.len() * 8,
    ensures
        final(bits)@.0 == old(bits)@.0,
        0 <= final(bits)@.1 <= final(bits)@.0.len() * 8,
        (*final(channels), final(bits)@.1) == spec_ga(old(bits)@.0, old(bits)@.1, channel_config as int, *old(channels)),
{
    if bits.read(1).is_none() {
        return;
    }
    let depends = bits.read(1);
    if depends == Some(1u32) && bits.skip(14).is_none() {
        return;
    }
    if bits.read(1).is_none() {
        return;
    }
    if channel_config == 0 {
        *channels = parse_program_config_element(bits);
    }
}

/// Decides at the reader's bit whether a sync extension starts there.
fn sync_extension_at(bits: &mut BitReader) -> (r: Option<Option<SyncExtension>>)
    requires
        bits_fit(old(bits)@.0, old(bits)@.1, 17),
    ensures
        r == sync_at(old(bits)@.0, old(bits)@.1),
        final(bits)@.0 == old(bits)@.0,
{
    proof {
        reveal(sync_at);
    }
    let v = match bits.read(11) { Some(v) => v, None => return Some(None) };
    if v != 0x2b7 {
        return None;
    }
    let object_type = match read_audio_object_type(bits) { Some(t) => t, None => return Some(None) };
    if object_type != 5 {
        return None;
    }
    let flag = match bits.read(1) { Some(f) => f, None => return Some(None) };
    if flag == 0 {
        return None;
    }
    let sample_rate = match read_sampling_frequency(bits) {
        Some(Some(r)) => r,
        _ => return Some(None),
    };
    let mut ps_present = false;
    if bits.fits(12) {
        let tag = match bits.read(11) { Some(t) => t, None => return Some(None) };
        if tag == 0x548 {
            ps_present = match bits.read(1) { Some(f) => f, None => return Some(None) } != 0;
        }
    }
    Some(Some(SyncExtension { sample_rate, ps_present }))
}

/// Searches bit by bit for an SBR sync extension.
fn find_sync_extension(bits: &mut BitReader) -> (r: Option<SyncExtension>)
    requires
        0 <= old(bits)@.1 <= old(bits)@.0.len() * 8,
    ensures
        r == spec_sync_ext(old(bits)@.0, old(bits)@.1),
{
    let ghost d = bits@.0;
    let ghost p0 = bits@.1;
    loop
        invariant
            bits@.0 == d,
            d == old(bits)@.0,
            p0 == old(bits)@.1,
            0 <= bits@.1 <= d.len() * 8,
            spec_sync_ext(d, p0) == spec_sync_ext(d, bits@.1),
        decreases d.len() * 8 - bits@.1,
    {
        if !bits.fits(17) {
            return None;
        }
        let pos = bits.position();
        match sync_extension_at(bits) {
            Some(r) => return r,
            None => {},
        }
        if bits.seek(pos + 1).is_none() {
            return None;
        }
    }
}

/// Reads the WAVE format of the first RIFF header in `bytes`.
fn parse_als_wave_metadata(bytes: &[u8]) -> (r: Option<AlsWaveMetadata>)
    ensures
        r == spec_als_wave(bytes@),
{
    let riff = match find_tag(bytes, &[0x52u8, 0x49, 0x46, 0x46]) { Some(p) => p, None => return None };
    let len = bytes.len();
    if len - riff < 12 {
        return None;
    }
    let mut pos = riff + 12;
    while pos <= len && len - pos >= 8
        invariant
            len == bytes@.len(),
            spec_als_wave(bytes@) == als_walk(bytes@, pos as int),
        decreases len - pos,
    {
        let size = u32_le_at(bytes, pos + 4) as usize;
        let start = pos + 8;
        if size > usize::MAX - start {
            return None;
        }
        let end = start + size;
        if end > len {
            return None;
        }
        if tag_at(bytes, pos, &[0x66u8, 0x6d, 0x74, 0x20]) && size >= 16 {
            return Some(AlsWaveMetadata {
                sample_rate: Some(le32(bytes, start + 4)),
                channels: Some(le16(bytes, start + 2)),
                bits_per_sample: Some(le16(bytes, start + 14)),
            });
        }
        if size % 2 > len - end {
            return None;
        }
        pos = end + size % 2;
    }
    None
}

fn u32_le_at(bytes: &[u8], p: usize) -> (r: u32)
    requires
        p + 4 <= bytes@.len(),
    ensures
        r == u32_le(bytes@, p as int),
{
    le32(bytes, p)
}

/// Reads an AudioSpecificConfig.
pub fn parse_audio_specific_config(bytes: &[u8]) -> (r: Option<AacAudioConfig>)
    ensures
        r == spec_asc(bytes@),
{
    let ghost d = bytes@;
    let mut bits = BitReader::new(bytes);
    let object_type = match read_audio_object_type(&mut bits) { Some(t) => t, None => return None };
    let rate = match read_sampling_frequency(&mut bits) { Some(r) => r, None => return None };
    let channel_config = match bits.read(4) { Some(c) => c, None => return None };
    proof {
        crate::bits::lemma_msb_bound(d, bits@.1 - 4, 4);
        reveal_with_fuel(crate::bits::two_pow, 5);
    }
    let ch = channels(channel_config as u8);
    if object_type == 5 || object_type == 29 {
        let rate2 = match read_sampling_frequency(&mut bits) { Some(r) => r, None => return None };
        if read_audio_object_type(&mut bits).is_none() {
            return None;
        }
        let ch2 = if object_type == 29 { Some(2u16) } else { ch };
        let ch3 = if ch2 == Some(1u16) { Some(2u16) } else { ch2 };
        return Some(AacAudioConfig { codec_name: "aac", sample_rate: rate2, channels: ch3, bits_per_sample: None });
    }
    if object_type == 36 {
        return match parse_als_wave_metadata(bytes) {
            Some(a) => Some(AacAudioConfig {
                codec_name: "mp4als",
                sample_rate: if a.sample_rate.is_some() { a.sample_rate } else { rate },
                channels: if a.channels.is_some() { a.channels } else { ch },
                bits_per_sample: a.bits_per_sample,
            }),
            None => Some(AacAudioConfig { codec_name: "aac", sample_rate: rate, channels: ch, bits_per_sample: None }),
        };
    }
    let mut ch2 = ch;
    parse_ga_specific_config(&mut bits, channel_config, &mut ch2);
    match find_sync_extension(&mut bits) {
        None => Some(AacAudioConfig { codec_name: "aac", sample_rate: rate, channels: ch2, bits_per_sample: None }),
        Some(e) => {
            let ch3 = if e.ps_present || ch2 == Some(1u16) { Some(2u16) } else { ch2 };
            Some(AacAudioConfig { codec_name: "aac", sample_rate: Some(e.sample_rate), channels: ch3, bits_per_sample: None })
        },
    }
}


/// The ID3v2 tags walked from `pos` end at a position with no further tag.
proof fn lemma_id3_walk_ends(b: Seq<u8>, pos: int)
    ensures
        id3_walk(b, pos) matches Ok(q) ==> !has_tag(b, q, seq![0x49u8, 0x44, 0x33]),
    decreases b.len() - pos,
{
    if pos < 0 || !has_tag(b, pos, seq![0x49u8, 0x44, 0x33]) {
    } else if b.len() - pos < 10 {
    } else if b[pos + 6] >= 128 || b[pos + 7] >= 128 || b[pos + 8] >= 128 || b[pos + 9] >= 128 {
    } else if pos + id3_tag_size(b, pos) > usize::MAX {
    } else if pos + id3_tag_size(b, pos) > b.len() {
    } else {
        lemma_id3_walk_ends(b, pos + id3_tag_size(b, pos));
    }
}

/// Every stream that the ADTS probe accepts also passes the ADTS quick check: after its
/// leading ID3v2 tags stands a valid ADTS header.
pub proof fn law_adts_probe_implies_quick_check(b: Seq<u8>)
    requires
        spec_parse_adts_aac(b) is Ok,
    ensures
        spec_looks_like_adts_aac(b),
{
    lemma_id3_walk_ends(b, 0);
    let start = id3_walk(b, 0)->Ok_0;
    assert(!has_tag(b, start, seq![0x49u8, 0x44, 0x33]));
    assert(start >= 0);
}

} // verus!
