use vstd::prelude::*;
use crate::bytes::{is_first_tag, lemma_first_tag_unique, first_tag, find_tag, has_tag, tag_at};
use crate::error::{invalid_data, unsupported, Failure, Result, RmpegError};
use crate::metadata::{audio_stream, probe_outcome, secs, Probe, ProbeDocument, Seconds, StreamMetadata};
use crate::bits::{bits_fit, msb, BitReader};

verus! {

/// Whether a sync frame is AC-3 or E-AC-3.
#[derive(Debug, Clone, Copy, PartialEq, Eq, Structural)]
pub enum Ac3Kind {
    Ac3,
    Eac3,
}

/// What a sync frame's header tells of the stream.
#[derive(Debug, Clone, Copy, PartialEq, Eq, Structural)]
pub struct Ac3Info {
    pub kind: Ac3Kind,
    pub sample_rate: u32,
    pub channels: u16,
    pub bitrate: u32,
}

/// The sample rate of an AC-3 `fscod`.
pub open spec fn ac3_rate(code: int) -> Option<int> {
    if code == 0 { Some(48000) } else if code == 1 { Some(44100) } else if code == 2 { Some(32000) } else { None }
}

/// The sample rate of an E-AC-3 `fscod2` (the reduced rates).
pub open spec fn eac3_reduced_rate(code: int) -> Option<int> {
    if code == 0 { Some(24000) } else if code == 1 { Some(22050) } else if code == 2 { Some(16000) } else { None }
}

/// The audio blocks per frame of an E-AC-3 `numblkscod`.
pub open spec fn eac3_blocks(code: int) -> int {
    if code == 0 { 1 } else if code == 1 { 2 } else if code == 2 { 3 } else { 6 }
}

/// The nominal bit rate of AC-3 frame size code pair `i` (`frmsizecod / 2`).
pub open spec fn ac3_bitrate_of(i: int) -> Option<int> {
    if 0 <= i < 19 {
        Some(seq![32000int, 40000, 48000, 56000, 64000, 80000, 96000, 112000, 128000, 160000, 192000,
            224000, 256000, 320000, 384000, 448000, 512000, 576000, 640000][i])
    } else {
        None
    }
}

/// The channel count of audio coding mode `acmod`, with the LFE channel when `lfe`.
pub open spec fn ac3_channels(acmod: int, lfe: bool) -> Option<int> {
    let base: int = if acmod == 0 { 2 } else if acmod == 1 { 1 } else if acmod == 2 { 2 } else if acmod == 3 { 3 }
        else if acmod == 4 { 3 } else if acmod == 5 { 4 } else if acmod == 6 { 4 } else { 5 };
    if 0 <= acmod <= 7 { Some(if lfe { base + 1 } else { base }) } else { None }
}

/// The bits of mix levels that an AC-3 header carries for `acmod`.
pub open spec fn ac3_mix_bits(acmod: int) -> int {
    (if acmod % 2 == 1 && acmod != 1 { 2int } else { 0int }) + (if (acmod / 4) % 2 == 1 { 2int } else { 0int })
        + (if acmod == 2 { 2int } else { 0int })
}

/// The header of an AC-3 sync frame at the start of `d`: sync word, rate and frame
/// size codes, a bitstream id of 10 at most, coding mode, mix levels and LFE flag.
pub open spec fn spec_ac3_info(d: Seq<u8>) -> Option<Ac3Info> {
    let fscod = msb(d, 32, 2);
    let frmsizecod = msb(d, 34, 6);
    let bsid = msb(d, 40, 5);
    let acmod = msb(d, 48, 3);
    let lfe = msb(d, 51 + ac3_mix_bits(acmod), 1) != 0;
    if d.len() < 7 || msb(d, 0, 16) != 0x0b77 || bsid > 10 {
        None
    } else {
        match (ac3_rate(fscod), ac3_bitrate_of(frmsizecod / 2), ac3_channels(acmod, lfe)) {
            (Some(rate), Some(bitrate), Some(ch)) => Some(Ac3Info {
                kind: Ac3Kind::Ac3,
                sample_rate: rate as u32,
                channels: ch as u16,
                bitrate: bitrate as u32,
            }),
            _ => None,
        }
    }
}

/// The header of an E-AC-3 sync frame at the start of `d`: stream type 0 to 2, frame
/// size of 6 bytes or more, sample rate and block count, coding mode, LFE flag and a
/// bitstream id from 11 to 16; the bit rate follows from frame size, rate and blocks.
pub open spec fn spec_eac3_info(d: Seq<u8>) -> Option<Ac3Info> {
    let strmtyp = msb(d, 16, 2);
    let frame_size = (msb(d, 21, 11) + 1) * 2;
    let fscod = msb(d, 32, 2);
    let code2 = msb(d, 34, 2);
    let rate = if fscod == 3 { eac3_reduced_rate(code2) } else { ac3_rate(fscod) };
    let blocks = if fscod == 3 { 6 } else { eac3_blocks(code2) };
    let acmod = msb(d, 36, 3);
    let lfe = msb(d, 39, 1) != 0;
    let bsid = msb(d, 40, 5);
    if d.len() < 8 || msb(d, 0, 16) != 0x0b77 || strmtyp > 2 || frame_size < 6 {
        None
    } else {
        match rate {
            None => None,
            Some(r) => if !(11 <= bsid <= 16) {
                None
            } else {
                match ac3_channels(acmod, lfe) {
                    None => None,
                    Some(ch) => Some(Ac3Info {
                        kind: Ac3Kind::Eac3,
                        sample_rate: r as u32,
                        channels: ch as u16,
                        bitrate: (frame_size * 8 * r / (blocks * 256)) as u32,
                    }),
                }
            },
        }
    }
}

/// The header at `pos`: the sync word there, then an AC-3 header, else an E-AC-3 one.
pub open spec fn spec_info_at(b: Seq<u8>, pos: int) -> Option<Ac3Info> {
    if pos + 2 > b.len() || !has_tag(b, pos, seq![0x0bu8, 0x77]) {
        None
    } else {
        match spec_ac3_info(b.subrange(pos, b.len() as int)) {
            Some(i) => Some(i),
            None => spec_eac3_info(b.subrange(pos, b.len() as int)),
        }
    }
}

/// The probe of a raw AC-3 or E-AC-3 stream whose header is at `sync`; the duration is
/// the stream's length in bits over the bit rate.
pub open spec fn spec_ac3_from_sync(b: Seq<u8>, sync: int) -> core::result::Result<Probe, Failure> {
    match spec_info_at(b, sync) {
        None => Err(Failure::InvalidData),
        Some(info) => {
            let name: &'static str = if info.kind == Ac3Kind::Ac3 { "ac3" } else { "eac3" };
            Ok(Probe {
                format: name,
                streams: seq![audio_stream(0, name, info.sample_rate as int, info.channels as int, 0,
                    secs((b.len() * 8) as int, info.bitrate as int))],
            })
        },
    }
}

/// The probe of a stream that starts with its first sync frame.
pub open spec fn spec_parse_raw_ac3_or_eac3(b: Seq<u8>) -> core::result::Result<Probe, Failure> {
    spec_ac3_from_sync(b, 0)
}

/// The probe of a stream whose first sync frame is at the first sync word found.
pub open spec fn spec_parse_raw_ac3_or_eac3_scanning(b: Seq<u8>) -> core::result::Result<Probe, Failure> {
    match first_tag(b, seq![0x0bu8, 0x77]) {
        None => Err(Failure::InvalidData),
        Some(p) => spec_ac3_from_sync(b, p),
    }
}

/// The bit rate of frame size code pair `i`.
fn ac3_bitrate(i: u32) -> (r: Option<u32>)
    ensures
        match r {
            Some(v) => ac3_bitrate_of(i as int) == Some(v as int),
            None => ac3_bitrate_of(i as int) is None,
        },
{
    let v: u32 = if i == 0 { 32000 } else if i == 1 { 40000 } else if i == 2 { 48000 } else if i == 3 { 56000 }
        else if i == 4 { 64000 } else if i == 5 { 80000 } else if i == 6 { 96000 } else if i == 7 { 112000 }
        else if i == 8 { 128000 } else if i == 9 { 160000 } else if i == 10 { 192000 } else if i == 11 { 224000 }
        else if i == 12 { 256000 } else if i == 13 { 320000 } else if i == 14 { 384000 } else if i == 15 { 448000 }
        else if i == 16 { 512000 } else if i == 17 { 576000 } else if i == 18 { 640000 } else {
        return None;
    };
    Some(v)
}

/// The channel count of coding mode `acmod`, plus the LFE channel when `lfeon`.
fn ac3_channel_count(acmod: u32, lfeon: bool) -> (r: Option<u16>)
    ensures
        match r {
            Some(v) => ac3_channels(acmod as int, lfeon) == Some(v as int),
            None => ac3_channels(acmod as int, lfeon) is None,
        },
{
    let mut channels: u16 = if acmod == 0 { 2 } else if acmod == 1 { 1 } else if acmod == 2 { 2 } else if acmod == 3 { 3 }
        else if acmod == 4 { 3 } else if acmod == 5 { 4 } else if acmod == 6 { 4 } else if acmod == 7 { 5 } else {
        return None;
    };
    if lfeon {
        channels += 1;
    }
    Some(channels)
}

/// Moves past the mix-level fields that coding mode `acmod` carries.
fn skip_ac3_mix_levels(bits: &mut BitReader, acmod: u32) -> (r: Option<()>)
    requires
        0 <= old(bits)@.1 <= old(bits)@.0.len() * 8,
    ensures
        r is Some <==> bits_fit(old(bits)@.0, old(bits)@.1, ac3_mix_bits(acmod as int)),
        r is Some ==> final(bits)@ == (old(bits)@.0, old(bits)@.1 + ac3_mix_bits(acmod as int)),
{
    let ghost start = bits@;
    let a: usize = if acmod % 2 == 1 && acmod != 1 { 2 } else { 0 };
    let b: usize = if (acmod / 4) % 2 == 1 { 2 } else { 0 };
    let c: usize = if acmod == 2 { 2 } else { 0 };
    assert(a + b + c == ac3_mix_bits(acmod as int));
    if a > 0 {
        if bits.skip(2).is_none() {
            return None;
        }
    }
    if b > 0 {
        if bits.skip(2).is_none() {
            assert(!bits_fit(start.0, start.1, ac3_mix_bits(acmod as int)));
            return None;
        }
    }
    if c > 0 {
        if bits.skip(2).is_none() {
            assert(!bits_fit(start.0, start.1, ac3_mix_bits(acmod as int)));
            return None;
        }
    }
    assert(bits@ == (start.0, start.1 + a + b + c));
    Some(())
}

/// Reads the header of an AC-3 sync frame at the start of `bytes`.
pub fn parse_ac3_info(bytes: &[u8]) -> (r: Option<Ac3Info>)
    ensures
        r == spec_ac3_info(bytes@),
{
    if bytes.len() < 7 {
        return None;
    }
    let ghost d = bytes@;
    let mut bits = BitReader::new(bytes);
    let sync = match bits.read(16) { Some(v) => v, None => return None };
    if sync != 0x0b77 {
        return None;
    }
    if bits.skip(16).is_none() {
        return None;
    }
    let fscod = match bits.read(2) { Some(v) => v, None => return None };
    let frmsizecod = match bits.read(6) { Some(v) => v, None => return None };
    let bsid = match bits.read(5) { Some(v) => v, None => return None };
    if bsid > 10 {
        return None;
    }
    if bits.skip(3).is_none() {
        return None;
    }
    let acmod = match bits.read(3) { Some(v) => v, None => return None };
    assert(bits@ == (d, 51int));
    if skip_ac3_mix_levels(&mut bits, acmod).is_none() {
        return None;
    }
    let lfeon = match bits.read(1) { Some(v) => v, None => return None } != 0;
    let sample_rate: u32 = if fscod == 0 { 48000 } else if fscod == 1 { 44100 } else if fscod == 2 { 32000 } else {
        return None;
    };
    let bitrate = match ac3_bitrate(frmsizecod / 2) { Some(v) => v, None => return None };
    let channels = match ac3_channel_count(acmod, lfeon) { Some(v) => v, None => return None };
    Some(Ac3Info { kind: Ac3Kind::Ac3, sample_rate, channels, bitrate })
}

/// Reads the header of an E-AC-3 sync frame at the start of `bytes`.
pub fn parse_eac3_info(bytes: &[u8]) -> (r: Option<Ac3Info>)
    ensures
        r == spec_eac3_info(bytes@),
{
    if bytes.len() < 8 {
        return None;
    }
    let ghost d = bytes@;
    let mut bits = BitReader::new(bytes);
    let sync = match bits.read(16) { Some(v) => v, None => return None };
    if sync != 0x0b77 {
        return None;
    }
    let strmtyp = match bits.read(2) { Some(v) => v, None => return None };
    if strmtyp > 2 {
        return None;
    }
    if bits.skip(3).is_none() {
        return None;
    }
    let frmsiz = match bits.read(11) { Some(v) => v, None => return None };
    proof {
        crate::bits::lemma_msb_bound(d, 21, 11);
        reveal_with_fuel(crate::bits::two_pow, 12);
    }
    let frame_size = (frmsiz + 1) * 2;
    if frame_size < 6 {
        return None;
    }
    let fscod = match bits.read(2) { Some(v) => v, None => return None };
    let code2 = match bits.read(2) { Some(v) => v, None => return None };
    proof {
        crate::bits::lemma_msb_bound(d, 32, 2);
        reveal_with_fuel(crate::bits::two_pow, 3);
    }
    let (sample_rate, blocks): (u32, u32) = if fscod == 3 {
        let r: u32 = if code2 == 0 { 24000 } else if code2 == 1 { 22050 } else if code2 == 2 { 16000 } else {
            return None;
        };
        (r, 6)
    } else {
        let r: u32 = if fscod == 0 { 48000 } else if fscod == 1 { 44100 } else { 32000 };
        let n: u32 = if code2 == 0 { 1 } else if code2 == 1 { 2 } else if code2 == 2 { 3 } else { 6 };
        (r, n)
    };
    let acmod = match bits.read(3) { Some(v) => v, None => return None };
    let lfeon = match bits.read(1) { Some(v) => v, None => return None } != 0;
    let bsid = match bits.read(5) { Some(v) => v, None => return None };
    if !(11 <= bsid && bsid <= 16) {
        return None;
    }
    let channels = match ac3_channel_count(acmod, lfeon) { Some(v) => v, None => return None };
    let num = (frame_size as u64) * 8 * (sample_rate as u64);
    let den = (blocks as u64) * 256;
    let q = num / den;
    assert(q <= num && num <= 4096 * 8 * 48000) by (nonlinear_arith)
        requires
            q == num / den,
            den >= 256,
            num == frame_size * 8 * sample_rate,
            frame_size <= 4096,
            sample_rate <= 48000,
    ;
    let bitrate = q as u32;
    assert(sample_rate as int == (if fscod == 3 { eac3_reduced_rate(code2 as int) } else { ac3_rate(fscod as int) })->0);
    assert(blocks as int == (if fscod == 3 { 6 } else { eac3_blocks(code2 as int) }));
    assert(frame_size as int == (msb(d, 21, 11) + 1) * 2);
    assert(bitrate as int == frame_size * 8 * sample_rate / (blocks * 256));
    Some(Ac3Info { kind: Ac3Kind::Eac3, sample_rate, channels, bitrate })
}

/// Reads the header at `pos`, trying AC-3 first, then E-AC-3.
fn parse_info_at(bytes: &[u8], pos: usize) -> (r: Option<Ac3Info>)
    requires
        pos <= bytes@.len(),
    ensures
        r == spec_info_at(bytes@, pos as int),
{
    if bytes.len() - pos < 2 || !tag_at(bytes, pos, &[0x0bu8, 0x77]) {
        return None;
    }
    let rest = &bytes[pos..bytes.len()];
    match parse_ac3_info(rest) {
        Some(i) => Some(i),
        None => parse_eac3_info(rest),
    }
}

/// Whether `bytes` starts with a sync word and a header that reads.
pub fn looks_like_raw_ac3_or_eac3(bytes: &[u8]) -> (r: bool)
    ensures
        r == (has_tag(bytes@, 0, seq![0x0bu8, 0x77]) && spec_info_at(bytes@, 0) is Some),
{
    tag_at(bytes, 0, &[0x0bu8, 0x77]) && parse_info_at(bytes, 0).is_some()
}

/// Probes a stream whose header is at `sync`.
fn parse_raw_ac3_or_eac3_from_sync(bytes: &[u8], sync: usize) -> (r: Result<ProbeDocument>)
    requires
        sync <= bytes@.len(),
    ensures
        probe_outcome(r) == spec_ac3_from_sync(bytes@, sync as int),
        r is Err ==> (r matches Err(RmpegError::InvalidData(m)) && m@ == "unsupported raw AC-3/E-AC-3 header"@),
{
    let info = match parse_info_at(bytes, sync) {
        Some(i) => i,
        None => return Err(invalid_data("unsupported raw AC-3/E-AC-3 header")),
    };
    let name: &'static str = match info.kind {
        Ac3Kind::Ac3 => "ac3",
        Ac3Kind::Eac3 => "eac3",
    };
    let duration = Seconds { num: (bytes.len() as u128) * 8, den: info.bitrate as u128 };
    Ok(ProbeDocument::single(name, StreamMetadata::audio(0, name, info.sample_rate, info.channels, 0, duration)))
}

/// Probes a raw AC-3 or E-AC-3 stream that starts with a sync frame.
pub fn parse_raw_ac3_or_eac3(bytes: &[u8]) -> (r: Result<ProbeDocument>)
    ensures
        probe_outcome(r) == spec_parse_raw_ac3_or_eac3(bytes@),
        r is Err ==> (r matches Err(RmpegError::InvalidData(m)) && m@ == "unsupported raw AC-3/E-AC-3 header"@),
{
    parse_raw_ac3_or_eac3_from_sync(bytes, 0)
}

/// Probes a raw AC-3 or E-AC-3 stream from its first sync word on.
pub fn parse_raw_ac3_or_eac3_scanning(bytes: &[u8]) -> (r: Result<ProbeDocument>)
    ensures
        probe_outcome(r) == spec_parse_raw_ac3_or_eac3_scanning(bytes@),
        r is Err ==> (r matches Err(RmpegError::InvalidData(m)) && m@ == (if first_tag(bytes@, seq![0x0bu8, 0x77]) is Some {
            "unsupported raw AC-3/E-AC-3 header"@
        } else {
            "raw AC-3 stream has no sync word"@
        })),
{
    let sync = match find_tag(bytes, &[0x0bu8, 0x77]) {
        Some(p) => p,
        None => return Err(invalid_data("raw AC-3 stream has no sync word")),
    };
    parse_raw_ac3_or_eac3_from_sync(bytes, sync)
}


/// A stream that opens with the sync word probes the same whether or not the probe
/// scans for it: the scan finds it at the start.
pub proof fn law_scanning_agrees_at_sync(b: Seq<u8>)
    requires
        has_tag(b, 0, seq![0x0bu8, 0x77]),
    ensures
        first_tag(b, seq![0x0bu8, 0x77]) == Some(0int),
        spec_parse_raw_ac3_or_eac3_scanning(b) == spec_parse_raw_ac3_or_eac3(b),
{
    assert(is_first_tag(b, seq![0x0bu8, 0x77], 0));
    lemma_first_tag_unique(b, seq![0x0bu8, 0x77], 0);
}

} // verus!
