use vstd::prelude::*;
use crate::error::{eof, invalid_data, outcome, unexpected_eof, Failure, Result, RmpegError};
use crate::bytes::append_bytes;
use crate::codec::digest::{audio_entry, audio_frame_hash, listing_outcome, listing_view, FrameHashView};
use crate::metadata::AudioFrameHash;
use crate::error::{error_text, with_number};

verus! {

/// The format fields of a WAV file that decoding needs.
#[derive(Debug, Clone, Copy, PartialEq, Eq)]
pub struct WavFormat {
    pub sample_rate: u32,
    pub channels: u16,
    pub block_align: u16,
    pub bits_per_sample: u16,
}

/// A WAV file's format and where its sample data lies.
#[derive(Debug, Clone, Copy, PartialEq, Eq)]
pub struct WavFile {
    pub metadata: WavFormat,
    pub data_offset: usize,
    pub data_size: usize,
}

/// `p` doubled for as long as the double stays within `t`.
pub open spec fn pow2_within(t: int, p: int) -> int
    decreases t - p,
{
    if p <= 0 || 2 * p > t { p } else { pow2_within(t, 2 * p) }
}

/// The samples per checksum frame for a sample rate: the largest power of two that is at
/// most a tenth of the rate; none below ten samples a second.
pub open spec fn spec_samples_per_frame(sample_rate: int) -> core::result::Result<int, Failure> {
    if sample_rate / 10 == 0 { Err(Failure::InvalidData) } else { Ok(pow2_within(sample_rate / 10, 1)) }
}

/// The 16-bit little-endian bytes of 8-bit unsigned samples: each sample less 128, in
/// the high byte.
pub open spec fn u8_pcm_as_s16le(p: Seq<u8>) -> Seq<u8> {
    Seq::new(2 * p.len(), |i: int| if i % 2 == 0 { 0u8 } else { ((p[i / 2] + 128) % 256) as u8 })
}

/// The 16-bit little-endian bytes of little-endian samples `width` bytes wide: the top
/// two bytes of each.
pub open spec fn wide_pcm_as_s16le(p: Seq<u8>, width: int) -> Seq<u8> {
    Seq::new(((p.len() as int) / width * 2) as nat, |i: int| p[(i / 2) * width + width - 2 + i % 2])
}

/// A frame of WAV sample bytes as 16-bit little-endian samples.
pub open spec fn spec_decoded_frame(p: Seq<u8>, bits: int) -> core::result::Result<Seq<u8>, Failure> {
    if bits == 16 {
        Ok(p)
    } else if bits == 24 {
        if p.len() % 3 != 0 { Err(Failure::InvalidData) } else { Ok(wide_pcm_as_s16le(p, 3)) }
    } else if bits == 32 {
        if p.len() % 4 != 0 { Err(Failure::InvalidData) } else { Ok(wide_pcm_as_s16le(p, 4)) }
    } else if bits == 8 {
        Ok(u8_pcm_as_s16le(p))
    } else {
        Err(Failure::Unsupported)
    }
}

/// The checksum lines of the WAV data from `offset` to `end`, after `acc`: frames of
/// `spf` samples of `align` bytes, the last one shorter.
pub open spec fn pcm_listing(b: Seq<u8>, bits: int, align: int, spf: int, offset: int, end: int, pts: int, acc: Seq<FrameHashView>) -> core::result::Result<Seq<FrameHashView>, Failure>
    decreases end - offset,
{
    let remaining = (end - offset) / align;
    let d = if remaining < spf { remaining } else { spf };
    if offset >= end || align <= 0 || remaining == 0 || spf <= 0 {
        Ok(acc)
    } else {
        match spec_decoded_frame(b.subrange(offset, offset + d * align), bits) {
            Err(e) => Err(e),
            Ok(f) => {
                proof {
                    assert(1 <= d * align <= end - offset) by (nonlinear_arith)
                        requires
                            1 <= d <= remaining,
                            remaining == (end - offset) / align,
                            align > 0,
                    ;
                }
                pcm_listing(b, bits, align, spf, offset + d * align, end, pts + d, acc.push(audio_entry(pts, d, f.len() as int, f)))
            },
        }
    }
}

/// The checksum listing of a WAV file's PCM data.
pub open spec fn spec_pcm_listing(b: Seq<u8>, wav: WavFile) -> core::result::Result<Seq<FrameHashView>, Failure> {
    let end = wav.data_offset + wav.data_size;
    match spec_samples_per_frame(wav.metadata.sample_rate as int) {
        Err(e) => Err(e),
        Ok(spf) => if wav.metadata.block_align == 0 {
            Err(Failure::InvalidData)
        } else if end > usize::MAX {
            Err(Failure::InvalidData)
        } else if end > b.len() {
            Err(eof(end, b.len() as int))
        } else {
            pcm_listing(b, wav.metadata.bits_per_sample as int, wav.metadata.block_align as int, spf, wav.data_offset as int, end, 0, Seq::empty())
        },
    }
}

/// The samples per checksum frame for `sample_rate`.
pub fn wav_framemd5_samples_per_frame(sample_rate: u32) -> (r: Result<u32>)
    ensures
        match spec_samples_per_frame(sample_rate as int) {
            Ok(v) => r is Ok && r->Ok_0 == v,
            Err(e) => outcome(r) == Err::<u32, Failure>(e),
        },
        r is Ok ==> 1 <= r->Ok_0 <= sample_rate / 10,
        r is Err ==> error_text(r->Err_0) == "sample_rate is too small for WAV packetization"@,
{
    let target = sample_rate / 10;
    if target == 0 {
        return Err(invalid_data("sample_rate is too small for WAV packetization"));
    }
    let mut samples: u32 = 1;
    while samples <= target / 2
        invariant
            1 <= samples <= target,
            pow2_within(target as int, 1) == pow2_within(target as int, samples as int),
        decreases target - samples,
    {
        samples = samples * 2;
    }
    Ok(samples)
}

/// 8-bit unsigned samples as 16-bit little-endian samples.
pub fn pcm_u8_to_s16le_bytes(input: &[u8]) -> (r: Vec<u8>)
    ensures
        r@ == u8_pcm_as_s16le(input@),
{
    let mut out: Vec<u8> = Vec::new();
    let mut i: usize = 0;
    while i < input.len()
        invariant
            i <= input@.len(),
            out@ == Seq::new(2 * i as nat, |k: int| if k % 2 == 0 { 0u8 } else { ((input@[k / 2] + 128) % 256) as u8 }),
        decreases input@.len() - i,
    {
        let b = input[i];
        out.push(0);
        out.push(if b >= 128 { b - 128 } else { b + 128 });
        assert(out@ =~= Seq::new(2 * (i + 1) as nat, |k: int| if k % 2 == 0 { 0u8 } else { ((input@[k / 2] + 128) % 256) as u8 }));
        i = i + 1;
    }
    assert(out@ =~= u8_pcm_as_s16le(input@));
    out
}

/// The top two bytes of each `width`-byte little-endian sample.
fn wide_pcm_top_bytes(input: &[u8], width: usize) -> (r: Vec<u8>)
    requires
        width == 3 || width == 4,
        input@.len() % (width as nat) == 0,
    ensures
        r@ == wide_pcm_as_s16le(input@, width as int),
{
    let len = input.len();
    let n = len / width;
    let mut out: Vec<u8> = Vec::new();
    let mut k: usize = 0;
    while k < n
        invariant
            len == input@.len(),
            width == 3 || width == 4,
            n == input@.len() / (width as nat),
            input@.len() % (width as nat) == 0,
            k <= n,
            out@ == Seq::new(2 * k as nat, |i: int| input@[(i / 2) * width + width - 2 + i % 2]),
        decreases n - k,
    {
        assert(k * width + width <= n * width) by (nonlinear_arith)
            requires
                k < n,
                width > 0,
        ;
        assert(n * width == input@.len()) by (nonlinear_arith)
            requires
                n == input@.len() / (width as nat),
                input@.len() % (width as nat) == 0,
                width > 0,
        ;
        let base = k * width;
        out.push(input[base + width - 2]);
        out.push(input[base + width - 1]);
        assert(out@ =~= Seq::new(2 * (k + 1) as nat, |i: int| input@[(i / 2) * width + width - 2 + i % 2]));
        k = k + 1;
    }
    assert(out@ =~= wide_pcm_as_s16le(input@, width as int));
    out
}

/// 24-bit little-endian samples as 16-bit ones: the top two bytes of each.
pub fn decoded_s24le_frame_bytes(input: &[u8]) -> (r: Result<Vec<u8>>)
    ensures
        input@.len() % 3 != 0 ==> outcome(r) == Err::<Vec<u8>, Failure>(Failure::InvalidData),
        input@.len() % 3 == 0 ==> r is Ok && r->Ok_0@ == wide_pcm_as_s16le(input@, 3),
{
    if input.len() % 3 != 0 {
        return Err(invalid_data("24-bit WAV frame has trailing partial sample"));
    }
    Ok(wide_pcm_top_bytes(input, 3))
}

/// 32-bit little-endian samples as 16-bit ones: the top two bytes of each.
pub fn decoded_s32le_frame_bytes(input: &[u8]) -> (r: Result<Vec<u8>>)
    ensures
        input@.len() % 4 != 0 ==> outcome(r) == Err::<Vec<u8>, Failure>(Failure::InvalidData),
        input@.len() % 4 == 0 ==> r is Ok && r->Ok_0@ == wide_pcm_as_s16le(input@, 4),
{
    if input.len() % 4 != 0 {
        return Err(invalid_data("32-bit WAV frame has trailing partial sample"));
    }
    Ok(wide_pcm_top_bytes(input, 4))
}

/// A frame of WAV sample bytes as 16-bit little-endian samples.
fn decoded_frame_bytes(input: &[u8], wav: &WavFile) -> (r: Result<Vec<u8>>)
    ensures
        match spec_decoded_frame(input@, wav.metadata.bits_per_sample as int) {
            Ok(f) => r is Ok && r->Ok_0@ == f,
            Err(e) => outcome(r) == Err::<Vec<u8>, Failure>(e),
        },
{
    let bits = wav.metadata.bits_per_sample;
    if bits == 16 {
        let mut out: Vec<u8> = Vec::new();
        append_bytes(&mut out, input);
        Ok(out)
    } else if bits == 24 {
        decoded_s24le_frame_bytes(input)
    } else if bits == 32 {
        decoded_s32le_frame_bytes(input)
    } else if bits == 8 {
        Ok(pcm_u8_to_s16le_bytes(input))
    } else {
        let mut m = with_number("WAV bits per sample ", bits as u64);
        m.append(" is not supported PCM");
        Err(RmpegError::Unsupported(m))
    }
}

/// The checksum listing of a WAV file's PCM data: frames of the samples per frame that
/// the sample rate gives, as 16-bit little-endian samples.
pub fn pcm_frame_hashes(input: &[u8], wav: &WavFile) -> (r: Result<Vec<AudioFrameHash>>)
    ensures
        listing_outcome(r) == spec_pcm_listing(input@, *wav),
{
    let spf = match wav_framemd5_samples_per_frame(wav.metadata.sample_rate) { Ok(v) => v, Err(e) => return Err(e) };
    if spf == 0 {
        return Err(invalid_data("samples_per_frame must be greater than zero"));
    }
    let align = wav.metadata.block_align as usize;
    if align == 0 {
        return Err(invalid_data("zero WAV block_align"));
    }
    let end = match wav.data_offset.checked_add(wav.data_size) {
        Some(v) => v,
        None => return Err(invalid_data("WAV data range overflow")),
    };
    if end > input.len() {
        return Err(unexpected_eof(end, input.len()));
    }
    let ghost bits = wav.metadata.bits_per_sample as int;
    let mut frames: Vec<AudioFrameHash> = Vec::new();
    let mut offset = wav.data_offset;
    let mut pts: u64 = 0;
    assert(listing_view(frames@) =~= Seq::<FrameHashView>::empty());
    while offset < end && (end - offset) / align > 0
        invariant
            end <= input@.len(),
            align > 0,
            align == wav.metadata.block_align,
            bits == wav.metadata.bits_per_sample,
            spf > 0,
            wav.data_offset <= offset,
            pts <= offset - wav.data_offset,
            spec_pcm_listing(input@, *wav) == pcm_listing(input@, bits, align as int, spf as int, offset as int, end as int, pts as int, listing_view(frames@)),
        decreases end - offset,
    {
        let remaining = (end - offset) / align;
        let d: usize = if remaining < spf as usize { remaining } else { spf as usize };
        assert(d * align <= end - offset) by (nonlinear_arith)
            requires
                d <= remaining,
                remaining == (end - offset) as int / (align as int),
                align > 0,
        ;
        assert(d <= d * align) by (nonlinear_arith)
            requires
                align > 0,
                d >= 0,
        ;
        let size = d * align;
        let frame = match decoded_frame_bytes(&input[offset..offset + size], wav) { Ok(f) => f, Err(e) => return Err(e) };
        let ghost before = frames@;
        frames.push(audio_frame_hash(pts, d as u32, frame.len(), frame.as_slice()));
        assert(listing_view(frames@) =~= listing_view(before).push(audio_entry(pts as int, d as int, frame@.len() as int, frame@)));
        offset = offset + size;
        pts = pts + d as u64;
    }
    Ok(frames)
}

/// Whether `n` is a power of two.
pub open spec fn is_pow2(n: int) -> bool
    decreases n,
{
    if n <= 0 { false } else if n == 1 { true } else { n % 2 == 0 && is_pow2(n / 2) }
}

/// Doubling a power of two while the double stays within `t` ends at a power of two
/// that is at most `t` and more than half of it.
pub proof fn lemma_pow2_within(t: int, p: int)
    requires
        1 <= p <= t,
        is_pow2(p),
    ensures
        is_pow2(pow2_within(t, p)),
        pow2_within(t, p) <= t < 2 * pow2_within(t, p),
    decreases t - p,
{
    if 2 * p <= t {
        assert(is_pow2(2 * p)) by {
            assert((2 * p) / 2 == p);
        }
        lemma_pow2_within(t, 2 * p);
    }
}

/// The samples per checksum frame are a power of two, at most a tenth of the rate and
/// more than a twentieth of it.
pub proof fn law_samples_per_frame(sample_rate: int)
    requires
        sample_rate / 10 >= 1,
    ensures
        spec_samples_per_frame(sample_rate) matches Ok(p) && is_pow2(p) && p <= sample_rate / 10 < 2 * p,
{
    lemma_pow2_within(sample_rate / 10, 1);
}

} // verus!
