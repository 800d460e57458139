use vstd::prelude::*;
use crate::bytes::{first_tag, find_tag, has_tag, le32, tag_at, u16_le, u32_le};
use crate::error::{eof, failure, invalid_data, unexpected_eof, unsupported, Failure, Result, RmpegError};
use crate::bytes::append_bytes;
use crate::codec::audio::{extension_is, has_extension, s16le_bytes, samples_to_s16le_bytes, AudioFrameHashDocument, DecodedAudio};
use crate::codec::pcm::{pcm_u8_to_s16le_bytes, u8_pcm_as_s16le, WavFile};
use crate::text::{is_dec, is_dec_digit, parse_u32, parse_u32_token, trim_bounds, trimmed};
use crate::error::push_decimal;
use vstd::string::StringSliceAdditionalSpecFns;
use crate::codec::digest::{audio_entry, audio_frame_hash, frame_entry, hex_chars, listing_view, md5_digest, md5_hex, FrameHashView};
use crate::codec::video::VideoFrameHashDocument;
use crate::codec::gif::{video_listing_outcome, VideoListing};
use crate::metadata::AudioFrameHash;
use crate::text::{all_dec, digits_value};

verus! {

/// The ffmpeg layout name of a channel count, where it has one.
pub fn channel_layout_name(channels: u16) -> (r: Option<&'static str>)
    ensures
        channels == 1 ==> r is Some && r->0@ == "mono"@,
        channels == 2 ==> r is Some && r->0@ == "stereo"@,
        channels != 1 && channels != 2 ==> r is None,
{
    if channels == 1 {
        Some("mono")
    } else if channels == 2 {
        Some("stereo")
    } else {
        None
    }
}

/// The stream number of an AVI chunk id: two decimal digits and then `suffix`.
pub fn avi_chunk_stream_index(id: &[u8], suffix: &[u8; 2]) -> (r: Option<usize>)
    ensures
        r == (if id@.len() == 4 && id@[2] == suffix@[0] && id@[3] == suffix@[1] && is_dec(id@[0]) && is_dec(id@[1]) {
            Some(((id@[0] - 48) * 10 + (id@[1] - 48)) as usize)
        } else {
            None::<usize>
        }),
{
    if id.len() != 4 || id[2] != suffix[0] || id[3] != suffix[1] {
        return None;
    }
    if id[0] < 48 || id[1] < 48 {
        return None;
    }
    let tens = id[0] - 48;
    let ones = id[1] - 48;
    if tens > 9 || ones > 9 {
        return None;
    }
    Some(tens as usize * 10 + ones as usize)
}

/// The end of an AVI chunk's data padded to an even offset.
pub fn padded_avi_chunk_end(data_end: usize) -> (r: Result<usize>)
    ensures
        data_end + data_end % 2 <= usize::MAX ==> r == Ok::<usize, RmpegError>((data_end + data_end % 2) as usize),
        data_end + data_end % 2 > usize::MAX ==> r is Err && failure(r->Err_0) == Failure::InvalidData,
{
    if data_end % 2 == 1 && data_end == usize::MAX {
        return Err(invalid_data("AVI padded chunk range overflow"));
    }
    Ok(data_end + data_end % 2)
}

/// The little-endian 32-bit value at `offset`.
pub fn read_u32_le_at(input: &[u8], offset: usize) -> (r: Result<u32>)
    ensures
        offset + 4 > usize::MAX ==> r is Err && failure(r->Err_0) == Failure::InvalidData,
        offset + 4 <= usize::MAX && offset + 4 > input@.len() ==> r is Err && failure(r->Err_0) == eof(offset + 4, input@.len() as int),
        offset + 4 <= input@.len() ==> r == Ok::<u32, RmpegError>(u32_le(input@, offset as int) as u32),
{
    let len = input.len();
    if offset > usize::MAX - 4 {
        return Err(invalid_data("u32 read range overflow"));
    }
    if offset + 4 > len {
        return Err(unexpected_eof(offset + 4, len));
    }
    Ok(le32(input, offset))
}

/// `numerator / denominator` rounded half up.
pub fn div_round_u128(numerator: u128, denominator: u128) -> (r: Result<u128>)
    requires
        numerator + denominator / 2 <= u128::MAX,
    ensures
        denominator == 0 ==> r is Err && failure(r->Err_0) == Failure::InvalidData,
        denominator > 0 ==> r == Ok::<u128, RmpegError>(((numerator + denominator / 2) / (denominator as int)) as u128),
{
    if denominator == 0 {
        return Err(invalid_data("resample denominator must be nonzero"));
    }
    Ok((numerator + denominator / 2) / denominator)
}

/// The bytes of a planar YUV 4:2:0 frame of `width` by `height`.
pub fn yuv420p_frame_size(width: u32, height: u32) -> (r: Result<usize>)
    ensures
        width * height * 3 > u64::MAX ==> r is Err && failure(r->Err_0) == Failure::InvalidData,
        width * height * 3 <= u64::MAX && width * height * 3 / 2 > usize::MAX ==> r is Err && failure(r->Err_0) == Failure::Unsupported,
        width * height * 3 <= u64::MAX && width * height * 3 / 2 <= usize::MAX ==> r == Ok::<usize, RmpegError>((width * height * 3 / 2) as usize),
{
    assert(width as u64 * height as u64 <= 0xffff_ffffu64 * 0xffff_ffffu64) by (nonlinear_arith);
    let pixels = width as u64 * height as u64;
    assert(pixels == width * height) by (nonlinear_arith)
        requires
            pixels == width as u64 * height as u64,
    ;
    let size = match pixels.checked_mul(3) {
        Some(v) => v / 2,
        None => return Err(invalid_data("video frame size overflow")),
    };
    if size > usize::MAX as u64 {
        return Err(unsupported("video frame is too large"));
    }
    Ok(size as usize)
}

/// The numerator and denominator of a rate written `num/den`, both nonzero.
pub open spec fn spec_parse_rate(t: Seq<u8>) -> Option<(u32, u32)> {
    match first_tag(t, seq![47u8]) {
        None => None,
        Some(k) => match (parse_u32(t.subrange(0, k)), parse_u32(t.subrange(k + 1, t.len() as int))) {
            (Some(n), Some(d)) => if n == 0 || d == 0 { None } else { Some((n as u32, d as u32)) },
            _ => None,
        },
    }
}

/// Reads a rate written `num/den`.
pub fn parse_rate(text: &str) -> (r: Option<(u32, u32)>)
    ensures
        r == spec_parse_rate(text.spec_bytes()),
{
    let t = text.as_bytes();
    let n = t.len();
    let slash: [u8; 1] = [47];
    assert(slash@ =~= seq![47u8]);
    let k = match find_tag(t, &slash) { Some(k) => k, None => return None };
    proof {
        crate::bytes::lemma_first_tag_found(t@, seq![47u8], k as int);
    }
    let num = match parse_u32_token(t, 0, k) { Some(v) => v, None => return None };
    let den = match parse_u32_token(t, k + 1, n) { Some(v) => v, None => return None };
    if num == 0 || den == 0 {
        None
    } else {
        Some((num, den))
    }
}

/// The index reflected into `0..len` as the resampler reads past either edge: mirrored
/// about the last sample past the end, periodically about both ends before the start.
pub open spec fn spec_edge_index(index: int, len: int) -> int {
    let period = 2 * len - 2;
    let r = index % period;
    if len <= 1 {
        0
    } else if index >= len {
        let m = 2 * len - 1 - index;
        if m < 0 { 0 } else { m }
    } else if r >= len {
        period - r
    } else {
        r
    }
}

/// The input frame read for frame `index` of an input `len` frames long.
pub fn swr_edge_index(index: isize, len: usize) -> (r: usize)
    requires
        len <= isize::MAX / 2,
    ensures
        r == spec_edge_index(index as int, len as int),
{
    if len <= 1 {
        return 0;
    }
    let n = len as isize;
    if index >= n {
        let m = 2 * n - 1 - index;
        return if m < 0 { 0 } else { m as usize };
    }
    let period = 2 * n - 2;
    let r: isize = if index >= 0 {
        index % period
    } else {
        let neg = -(index + 1);
        let k = neg % period;
        proof {
            let q = neg as int / period as int;
            vstd::arithmetic::div_mod::lemma_fundamental_div_mod(neg as int, period as int);
            assert(index as int == (-q - 1) * period + (period - 1 - k)) by (nonlinear_arith)
                requires
                    neg as int == period * q + k,
                    index as int == -(neg as int) - 1,
            ;
            vstd::arithmetic::div_mod::lemma_fundamental_div_mod_converse(index as int, period as int, -q - 1, period - 1 - k);
        }
        period - 1 - k
    };
    if r >= n {
        (period - r) as usize
    } else {
        r as usize
    }
}

/// The 16-bit sample with little-endian bytes `lo`, `hi`.
pub open spec fn i16_le(lo: u8, hi: u8) -> i16 {
    (hi as u16 * 256 + lo as u16) as i16
}

/// The 16-bit samples of little-endian samples `width` bytes wide: the top two bytes of
/// each.
pub open spec fn top16_samples(p: Seq<u8>, width: int) -> Seq<i16> {
    Seq::new(((p.len() as int) / width) as nat, |k: int| i16_le(p[k * width + width - 2], p[k * width + width - 1]))
}

/// The samples of `width`-byte little-endian PCM as 16-bit samples, their top two bytes.
fn top16_sample_vec(input: &[u8], width: usize) -> (r: Vec<i16>)
    requires
        width == 2 || width == 3 || width == 4,
        input@.len() % (width as nat) == 0,
    ensures
        r@ == top16_samples(input@, width as int),
{
    let len = input.len();
    let n = len / width;
    let mut out: Vec<i16> = Vec::new();
    let mut k: usize = 0;
    while k < n
        invariant
            len == input@.len(),
            width == 2 || width == 3 || width == 4,
            n == len / width,
            len % width == 0,
            k <= n,
            out@ == Seq::new(k as nat, |j: int| i16_le(input@[j * width + width - 2], input@[j * width + width - 1])),
        decreases n - k,
    {
        assert(k * width + width <= n * width && n * width == len) by (nonlinear_arith)
            requires
                k < n,
                n == len / width,
                len % width == 0,
                width > 0,
        ;
        let base = k * width;
        let lo = input[base + width - 2];
        let hi = input[base + width - 1];
        out.push((hi as u16 * 256 + lo as u16) as i16);
        assert(out@ =~= Seq::new((k + 1) as nat, |j: int| i16_le(input@[j * width + width - 2], input@[j * width + width - 1])));
        k = k + 1;
    }
    assert(out@ =~= top16_samples(input@, width as int));
    out
}

/// Raw 16-bit little-endian samples.
pub fn decode_s16le_sample_bytes(input: &[u8]) -> (r: Result<Vec<i16>>)
    ensures
        input@.len() % 2 != 0 ==> r is Err && failure(r->Err_0) == Failure::InvalidData,
        input@.len() % 2 == 0 ==> r is Ok && r->Ok_0@ == top16_samples(input@, 2),
{
    if input.len() % 2 != 0 {
        return Err(invalid_data("raw s16le input has trailing partial sample"));
    }
    Ok(top16_sample_vec(input, 2))
}

/// Raw 24-bit little-endian samples as 16-bit ones.
pub fn decode_s24le_sample_bytes(input: &[u8]) -> (r: Result<Vec<i16>>)
    ensures
        input@.len() % 3 != 0 ==> r is Err && failure(r->Err_0) == Failure::InvalidData,
        input@.len() % 3 == 0 ==> r is Ok && r->Ok_0@ == top16_samples(input@, 3),
{
    if input.len() % 3 != 0 {
        return Err(invalid_data("raw s24le input has trailing partial sample"));
    }
    Ok(top16_sample_vec(input, 3))
}

/// Raw 32-bit little-endian samples as 16-bit ones.
pub fn decode_s32le_sample_bytes(input: &[u8]) -> (r: Result<Vec<i16>>)
    ensures
        input@.len() % 4 != 0 ==> r is Err && failure(r->Err_0) == Failure::InvalidData,
        input@.len() % 4 == 0 ==> r is Ok && r->Ok_0@ == top16_samples(input@, 4),
{
    if input.len() % 4 != 0 {
        return Err(invalid_data("raw s32le input has trailing partial sample"));
    }
    Ok(top16_sample_vec(input, 4))
}

/// A 24-bit little-endian sample as a 16-bit one: its top two bytes.
pub fn s24le_to_s16(chunk: &[u8]) -> (r: i16)
    requires
        chunk@.len() >= 3,
    ensures
        r == i16_le(chunk@[1], chunk@[2]),
{
    (chunk[2] as u16 * 256 + chunk[1] as u16) as i16
}

/// 8-bit unsigned samples as 16-bit ones: less 128, in the high byte.
pub open spec fn u8_samples(p: Seq<u8>) -> Seq<i16> {
    Seq::new(p.len(), |k: int| ((p[k] - 128) * 256) as i16)
}

/// The samples of a WAV file's data as 16-bit samples.
pub open spec fn spec_wav_samples(b: Seq<u8>, wav: WavFile) -> core::result::Result<Seq<i16>, Failure> {
    let end = wav.data_offset + wav.data_size;
    let p = b.subrange(wav.data_offset as int, end);
    let bits = wav.metadata.bits_per_sample;
    if end > usize::MAX {
        Err(Failure::InvalidData)
    } else if end > b.len() {
        Err(eof(end, b.len() as int))
    } else if bits == 16 {
        if p.len() % 2 != 0 { Err(Failure::InvalidData) } else { Ok(top16_samples(p, 2)) }
    } else if bits == 24 {
        if p.len() % 3 != 0 { Err(Failure::InvalidData) } else { Ok(top16_samples(p, 3)) }
    } else if bits == 32 {
        if p.len() % 4 != 0 { Err(Failure::InvalidData) } else { Ok(top16_samples(p, 4)) }
    } else if bits == 8 {
        Ok(u8_samples(p))
    } else {
        Err(Failure::Unsupported)
    }
}

/// The samples of a WAV file's data, with its rate and channel count.
pub fn decode_wav_samples(input: &[u8], wav: &WavFile) -> (r: Result<DecodedAudio>)
    ensures
        match spec_wav_samples(input@, *wav) {
            Ok(s) => r is Ok && r->Ok_0.samples@ == s && r->Ok_0.sample_rate == wav.metadata.sample_rate && r->Ok_0.channels == wav.metadata.channels,
            Err(e) => r is Err && failure(r->Err_0) == e,
        },
{
    let end = match wav.data_offset.checked_add(wav.data_size) {
        Some(v) => v,
        None => return Err(invalid_data("WAV data range overflow")),
    };
    if end > input.len() {
        return Err(unexpected_eof(end, input.len()));
    }
    let payload = &input[wav.data_offset..end];
    let bits = wav.metadata.bits_per_sample;
    let samples = if bits == 16 {
        if payload.len() % 2 != 0 {
            return Err(invalid_data("16-bit WAV data has trailing partial sample"));
        }
        top16_sample_vec(payload, 2)
    } else if bits == 24 {
        match decode_s24le_sample_bytes(payload) { Ok(v) => v, Err(e) => return Err(e) }
    } else if bits == 32 {
        match decode_s32le_sample_bytes(payload) { Ok(v) => v, Err(e) => return Err(e) }
    } else if bits == 8 {
        let mut out: Vec<i16> = Vec::new();
        let mut i: usize = 0;
        while i < payload.len()
            invariant
                i <= payload@.len(),
                out@ == Seq::new(i as nat, |k: int| ((payload@[k] - 128) * 256) as i16),
            decreases payload@.len() - i,
        {
            let v: i16 = (payload[i] as i16 - 128) * 256;
            out.push(v);
            assert(out@ =~= Seq::new((i + 1) as nat, |k: int| ((payload@[k] - 128) * 256) as i16));
            i = i + 1;
        }
        out
    } else {
        let mut m = String::from_str("WAV bits per sample ");
        push_decimal(&mut m, bits as u64);
        m.append(" is not supported PCM");
        return Err(RmpegError::Unsupported(m));
    };
    Ok(DecodedAudio { sample_rate: wav.metadata.sample_rate, channels: wav.metadata.channels, samples })
}

/// The bytes of a chunk of MP4 PCM as 16-bit little-endian samples: 8-bit unsigned
/// samples less 128 in the high byte, 16-bit samples as they are or with their bytes
/// swapped, 24-bit samples by their top two bytes.
pub open spec fn mp4_chunk_bytes(codec: Seq<u8>, p: Seq<u8>) -> core::result::Result<Seq<u8>, Failure> {
    if codec == seq![0x70u8, 0x63, 0x6d, 0x5f, 0x75, 0x38] {
        Ok(u8_pcm_as_s16le(p))
    } else if codec == seq![0x70u8, 0x63, 0x6d, 0x5f, 0x73, 0x31, 0x36, 0x6c, 0x65] {
        if p.len() % 2 != 0 { Err(Failure::InvalidData) } else { Ok(p) }
    } else if codec == seq![0x70u8, 0x63, 0x6d, 0x5f, 0x73, 0x31, 0x36, 0x62, 0x65] {
        if p.len() % 2 != 0 { Err(Failure::InvalidData) } else { Ok(Seq::new(p.len(), |i: int| if i % 2 == 0 { p[i + 1] } else { p[i - 1] })) }
    } else if codec == seq![0x70u8, 0x63, 0x6d, 0x5f, 0x73, 0x32, 0x34, 0x6c, 0x65] {
        if p.len() % 3 != 0 { Err(Failure::InvalidData) } else { Ok(crate::codec::pcm::wide_pcm_as_s16le(p, 3)) }
    } else {
        Err(Failure::Unsupported)
    }
}

/// Whether the whole of `t` is `tag`.
fn bytes_are(t: &[u8], tag: &[u8]) -> (r: bool)
    ensures
        r == (t@ == tag@),
{
    let r = crate::text::span_is(t, 0, t.len(), tag);
    assert(t@.subrange(0, t@.len() as int) =~= t@);
    r
}

/// Appends the 16-bit little-endian samples of a chunk of MP4 PCM in `codec_name`.
pub fn append_mp4_pcm_chunk(output: &mut Vec<u8>, codec_name: &str, input: &[u8]) -> (r: Result<()>)
    ensures
        match mp4_chunk_bytes(codec_name.spec_bytes(), input@) {
            Ok(s) => r is Ok && final(output)@ == old(output)@ + s,
            Err(e) => r is Err && failure(r->Err_0) == e,
        },
{
    let codec = codec_name.as_bytes();
    if bytes_are(codec, &[0x70u8, 0x63, 0x6d, 0x5f, 0x75, 0x38]) {
        let s = pcm_u8_to_s16le_bytes(input);
        append_bytes(output, s.as_slice());
    } else if bytes_are(codec, &[0x70u8, 0x63, 0x6d, 0x5f, 0x73, 0x31, 0x36, 0x6c, 0x65]) {
        if input.len() % 2 != 0 {
            return Err(invalid_data("MP4 s16le chunk has trailing partial sample"));
        }
        append_bytes(output, input);
    } else if bytes_are(codec, &[0x70u8, 0x63, 0x6d, 0x5f, 0x73, 0x31, 0x36, 0x62, 0x65]) {
        if input.len() % 2 != 0 {
            return Err(invalid_data("MP4 s16be chunk has trailing partial sample"));
        }
        let ghost start = output@;
        let mut i: usize = 0;
        while i < input.len()
            invariant
                i <= input@.len(),
                i % 2 == 0,
                input@.len() % 2 == 0,
                output@ == start + Seq::new(i as nat, |k: int| if k % 2 == 0 { input@[k + 1] } else { input@[k - 1] }),
            decreases input@.len() - i,
        {
            output.push(input[i + 1]);
            output.push(input[i]);
            assert(output@ =~= start + Seq::new((i + 2) as nat, |k: int| if k % 2 == 0 { input@[k + 1] } else { input@[k - 1] }));
            i = i + 2;
        }
    } else if bytes_are(codec, &[0x70u8, 0x63, 0x6d, 0x5f, 0x73, 0x32, 0x34, 0x6c, 0x65]) {
        match crate::codec::pcm::decoded_s24le_frame_bytes(input) {
            Ok(s) => append_bytes(output, s.as_slice()),
            Err(_) => return Err(invalid_data("MP4 s24le chunk has trailing partial sample")),
        }
    } else {
        return Err(RmpegError::Unsupported(crate::error::join3("MP4 audio codec ", codec_name, " is not supported PCM")));
    }
    Ok(())
}

/// One chunk of MP4 PCM: its duration in sample frames and its bytes.
#[derive(Debug, Clone, PartialEq, Eq)]
pub struct Mp4PcmChunk {
    pub duration: u32,
    pub data: Vec<u8>,
}

/// The PCM chunks of an MP4 audio track, with its rate, channel count and codec.
#[derive(Debug, Clone, PartialEq, Eq)]
pub struct Mp4PcmSampleData {
    pub sample_rate: u32,
    pub channels: u16,
    pub codec_name: String,
    pub chunks: Vec<Mp4PcmChunk>,
}

/// Whether every byte of `s` is zero.
pub open spec fn all_zero(s: Seq<u8>) -> bool {
    forall|i: int| 0 <= i < s.len() ==> s[i] == 0
}

/// The checksum lines of decoded chunk bytes `dec` from `off` on, in pieces of at most
/// `max` bytes (frames of `fb` bytes), after `acc` and timestamp `pts`; a final
/// big-endian piece of silence shorter than 1024 frames ends the listing unhashed.
pub open spec fn mp4_pieces(dec: Seq<u8>, fb: int, max: int, off: int, last_chunk: bool, s16be: bool, pts: int, acc: Seq<FrameHashView>) -> core::result::Result<(Seq<FrameHashView>, int), Failure>
    decreases dec.len() - off,
{
    let end = if off + max < dec.len() { off + max } else { dec.len() as int };
    let out = dec.subrange(off, end);
    let d = (out.len() as int) / fb;
    if off >= dec.len() || max <= 0 || fb <= 0 {
        Ok((acc, pts))
    } else if off + max > usize::MAX {
        Err(Failure::InvalidData)
    } else if d == 0 {
        mp4_pieces(dec, fb, max, end, last_chunk, s16be, pts, acc)
    } else if s16be && last_chunk && end == dec.len() && d < 1024 && all_zero(out) {
        Ok((acc, pts))
    } else if d > u32::MAX {
        Err(Failure::Unsupported)
    } else if pts + d > u64::MAX {
        Err(Failure::InvalidData)
    } else {
        mp4_pieces(dec, fb, max, end, last_chunk, s16be, pts + d, acc.push(audio_entry(pts, d, out.len() as int, out)))
    }
}

/// A chunk list by durations and bytes.
pub open spec fn mp4_chunks_view(c: Seq<Mp4PcmChunk>) -> Seq<(int, Seq<u8>)> {
    c.map_values(|k: Mp4PcmChunk| (k.duration as int, k.data@))
}

/// The checksum lines of chunks `i..` after `acc` and timestamp `pts`: each chunk decoded,
/// checked against its duration, and cut into pieces of at most 1024 frames.
pub open spec fn mp4_chunks(chunks: Seq<(int, Seq<u8>)>, codec: Seq<u8>, fb: int, i: int, pts: int, acc: Seq<FrameHashView>) -> core::result::Result<Seq<FrameHashView>, Failure>
    decreases chunks.len() - i,
{
    if i < 0 || i >= chunks.len() {
        Ok(acc)
    } else {
        match mp4_chunk_bytes(codec, chunks[i].1) {
            Err(e) => Err(e),
            Ok(dec) => if chunks[i].0 * fb > usize::MAX {
                Err(Failure::InvalidData)
            } else if dec.len() != chunks[i].0 * fb {
                Err(Failure::InvalidData)
            } else {
                match mp4_pieces(dec, fb, 1024 * fb, 0, i + 1 == chunks.len(), codec == seq![0x70u8, 0x63, 0x6d, 0x5f, 0x73, 0x31, 0x36, 0x62, 0x65], pts, acc) {
                    Err(e) => Err(e),
                    Ok(r) => mp4_chunks(chunks, codec, fb, i + 1, r.1, r.0),
                }
            },
        }
    }
}

/// The checksum listing of MP4 PCM sample data.
pub open spec fn spec_mp4_pcm_listing(s: Mp4PcmSampleData) -> core::result::Result<Seq<FrameHashView>, Failure> {
    let fb = s.channels * 2;
    if fb == 0 {
        Err(Failure::InvalidData)
    } else {
        mp4_chunks(mp4_chunks_view(s.chunks@), vstd::utf8::encode_utf8(s.codec_name@), fb, 0, 0, Seq::empty())
    }
}

/// The checksum lines of the pieces of one decoded chunk.
fn mp4_chunk_pieces(decoded: &[u8], fb: usize, max: usize, last_chunk: bool, s16be: bool, pts: &mut u64, frames: &mut Vec<AudioFrameHash>) -> (r: Result<()>)
    requires
        fb > 0,
        max > 0,
    ensures
        match mp4_pieces(decoded@, fb as int, max as int, 0, last_chunk, s16be, *old(pts) as int, listing_view(old(frames)@)) {
            Ok(v) => r is Ok && listing_view(final(frames)@) == v.0 && *final(pts) == v.1,
            Err(e) => r is Err && failure(r->Err_0) == e,
        },
{
    let len = decoded.len();
    let mut off: usize = 0;
    while off < len
        invariant
            len == decoded@.len(),
            fb > 0,
            max > 0,
            off <= len,
            mp4_pieces(decoded@, fb as int, max as int, 0, last_chunk, s16be, *old(pts) as int, listing_view(old(frames)@))
                == mp4_pieces(decoded@, fb as int, max as int, off as int, last_chunk, s16be, *pts as int, listing_view(frames@)),
        decreases len - off,
    {
        if off > usize::MAX - max {
            return Err(invalid_data("MP4 PCM output range overflow"));
        }
        let end = if off + max < len { off + max } else { len };
        let out = &decoded[off..end];
        let d = out.len() / fb;
        if d == 0 {
            off = end;
            continue;
        }
        if s16be && last_chunk && end == len && d < 1024 && is_all_zero(out) {
            return Ok(());
        }
        if d > 0xffff_ffff {
            return Err(unsupported("MP4 PCM output frame is too long"));
        }
        if *pts > u64::MAX - d as u64 {
            return Err(invalid_data("MP4 PCM timestamps overflow"));
        }
        let ghost before = frames@;
        frames.push(audio_frame_hash(*pts, d as u32, out.len(), out));
        assert(listing_view(frames@) =~= listing_view(before).push(audio_entry(*pts as int, d as int, out@.len() as int, out@)));
        *pts = *pts + d as u64;
        off = end;
    }
    Ok(())
}

/// Whether every byte of `s` is zero.
fn is_all_zero(s: &[u8]) -> (r: bool)
    ensures
        r == all_zero(s@),
{
    let mut i: usize = 0;
    while i < s.len()
        invariant
            i <= s@.len(),
            forall|k: int| 0 <= k < i ==> s@[k] == 0,
        decreases s@.len() - i,
    {
        if s[i] != 0 {
            return false;
        }
        i = i + 1;
    }
    true
}

/// The checksum listing of MP4 PCM sample data: each chunk decoded to 16-bit samples and
/// cut into frames of at most 1024 samples.
pub fn mp4_pcm_frame_hash_document(samples: Mp4PcmSampleData) -> (r: Result<AudioFrameHashDocument>)
    ensures
        match spec_mp4_pcm_listing(samples) {
            Ok(l) => r is Ok && listing_view(r->Ok_0.frames@) == l && r->Ok_0.sample_rate == samples.sample_rate && r->Ok_0.channels == samples.channels,
            Err(e) => r is Err && failure(r->Err_0) == e,
        },
{
    let channels = samples.channels;
    let fb = channels as usize * 2;
    if fb == 0 {
        return Err(invalid_data("MP4 PCM stream has zero channels"));
    }
    let max = 1024 * fb;
    let codec = samples.codec_name.as_str();
    let s16be = bytes_are(codec.as_bytes(), &[0x70u8, 0x63, 0x6d, 0x5f, 0x73, 0x31, 0x36, 0x62, 0x65]);
    let ghost cv = mp4_chunks_view(samples.chunks@);
    let ghost codec_bytes = vstd::utf8::encode_utf8(samples.codec_name@);
    assert(codec.spec_bytes() == codec_bytes);
    let count = samples.chunks.len();
    let mut frames: Vec<AudioFrameHash> = Vec::new();
    let mut pts: u64 = 0;
    let mut i: usize = 0;
    assert(listing_view(frames@) =~= Seq::<FrameHashView>::empty());
    while i < count
        invariant
            count == samples.chunks@.len(),
            cv == mp4_chunks_view(samples.chunks@),
            codec.spec_bytes() == codec_bytes,
            codec_bytes == vstd::utf8::encode_utf8(samples.codec_name@),
            s16be == (codec_bytes == seq![0x70u8, 0x63, 0x6d, 0x5f, 0x73, 0x31, 0x36, 0x62, 0x65]),
            fb == samples.channels * 2,
            fb > 0,
            max == 1024 * fb,
            i <= count,
            spec_mp4_pcm_listing(samples) == mp4_chunks(cv, codec_bytes, fb as int, i as int, pts as int, listing_view(frames@)),
        decreases count - i,
    {
        let chunk = &samples.chunks[i];
        let mut decoded: Vec<u8> = Vec::new();
        match append_mp4_pcm_chunk(&mut decoded, codec, chunk.data.as_slice()) { Ok(()) => {}, Err(e) => return Err(e) }
        assert(decoded@ =~= Seq::<u8>::empty() + decoded@);
        let expected = match (chunk.duration as usize).checked_mul(fb) {
            Some(v) => v,
            None => return Err(invalid_data("MP4 PCM decoded size overflow")),
        };
        if decoded.len() != expected {
            return Err(invalid_data("MP4 PCM decoded length does not match sample table duration"));
        }
        match mp4_chunk_pieces(decoded.as_slice(), fb, max, i + 1 == count, s16be, &mut pts, &mut frames) {
            Ok(()) => {},
            Err(e) => return Err(e),
        }
        i = i + 1;
    }
    Ok(AudioFrameHashDocument { sample_rate: samples.sample_rate, channels, frames })
}

/// Where the `movi` list's data lies, walking the top-level chunks from `offset` on.
pub open spec fn avi_movi_walk(b: Seq<u8>, offset: int) -> core::result::Result<(usize, usize), Failure>
    decreases (if offset < b.len() { b.len() - offset } else { 0 }),
{
    let size = u32_le(b, offset + 4);
    let ds = offset + 8;
    let de = ds + size;
    if offset < 0 || offset + 8 > b.len() {
        Err(Failure::Unsupported)
    } else if de > usize::MAX {
        Err(Failure::InvalidData)
    } else if de > b.len() {
        Err(eof(de, b.len() as int))
    } else if has_tag(b, offset, seq![0x4cu8, 0x49, 0x53, 0x54]) && size >= 4 && has_tag(b, ds, seq![0x6du8, 0x6f, 0x76, 0x69]) {
        Ok(((ds + 4) as usize, de as usize))
    } else if de + de % 2 > usize::MAX {
        Err(Failure::InvalidData)
    } else {
        avi_movi_walk(b, de + de % 2)
    }
}

/// Where the data of an AVI file's `movi` list lies.
pub open spec fn spec_avi_movi_range(b: Seq<u8>) -> core::result::Result<(usize, usize), Failure> {
    if b.len() < 12 || !has_tag(b, 0, seq![0x52u8, 0x49, 0x46, 0x46]) || !has_tag(b, 8, seq![0x41u8, 0x56, 0x49, 0x20]) {
        Err(Failure::InvalidData)
    } else {
        avi_movi_walk(b, 12)
    }
}

/// The stream number of a chunk id: two decimal digits, then `s0`, `s1`.
pub open spec fn avi_stream_of(id: Seq<u8>, s0: u8, s1: u8) -> Option<int> {
    if id.len() == 4 && id[2] == s0 && id[3] == s1 && is_dec(id[0]) && is_dec(id[1]) {
        Some((id[0] - 48) * 10 + (id[1] - 48))
    } else {
        None
    }
}

/// Where the data of the audio chunks of stream `target` lies, from `offset` to `end`,
/// after `acc`, descending into lists; a truncated index chunk ends the walk.
pub open spec fn avi_collect(b: Seq<u8>, offset: int, end: int, target: int, acc: Seq<(usize, usize)>) -> core::result::Result<Seq<(usize, usize)>, Failure>
    decreases (if offset < end { end - offset } else { 0 }),
{
    let id = b.subrange(offset, offset + 4);
    let size = u32_le(b, offset + 4);
    let ds = offset + 8;
    let de = ds + size;
    if offset < 0 || offset + 8 > end {
        Ok(acc)
    } else if offset + 8 > b.len() {
        Err(eof(offset + 8, b.len() as int))
    } else if de > usize::MAX {
        Err(Failure::InvalidData)
    } else if de > end || de > b.len() {
        if id == seq![0x69u8, 0x64, 0x78, 0x31] { Ok(acc) } else { Err(eof(de, if b.len() < end { b.len() as int } else { end })) }
    } else {
        let inner = if id == seq![0x4cu8, 0x49, 0x53, 0x54] {
            if size >= 4 { avi_collect(b, ds + 4, de, target, acc) } else { Ok(acc) }
        } else if avi_stream_of(id, 119, 98) == Some(target) {
            Ok(acc.push((ds as usize, de as usize)))
        } else {
            Ok(acc)
        };
        match inner {
            Err(e) => Err(e),
            Ok(a) => if de + de % 2 > usize::MAX { Err(Failure::InvalidData) } else { avi_collect(b, de + de % 2, end, target, a) },
        }
    }
}

/// Where the data of an AVI file's `movi` list lies.
pub fn avi_movi_range(input: &[u8]) -> (r: Result<(usize, usize)>)
    ensures
        match spec_avi_movi_range(input@) {
            Ok(v) => r is Ok && r->Ok_0 == v,
            Err(e) => r is Err && failure(r->Err_0) == e,
        },
        r is Ok ==> r->Ok_0.0 <= r->Ok_0.1 <= input@.len(),
{
    let len = input.len();
    if len < 12 || !tag_at(input, 0, &[0x52u8, 0x49, 0x46, 0x46]) || !tag_at(input, 8, &[0x41u8, 0x56, 0x49, 0x20]) {
        return Err(invalid_data("input is not an AVI RIFF file"));
    }
    let mut offset: usize = 12;
    while offset <= len && len - offset >= 8
        invariant
            len == input@.len(),
            12 <= offset,
            spec_avi_movi_range(input@) == avi_movi_walk(input@, offset as int),
        decreases len + 1 - offset,
    {
        let size = match read_u32_le_at(input, offset + 4) { Ok(v) => v as usize, Err(e) => return Err(e) };
        let ds = offset + 8;
        let de = match ds.checked_add(size) { Some(v) => v, None => return Err(invalid_data("AVI chunk range overflow")) };
        if de > len {
            return Err(unexpected_eof(de, len));
        }
        if tag_at(input, offset, &[0x4cu8, 0x49, 0x53, 0x54]) && size >= 4 && tag_at(input, ds, &[0x6du8, 0x6f, 0x76, 0x69]) {
            return Ok((ds + 4, de));
        }
        offset = match padded_avi_chunk_end(de) { Ok(v) => v, Err(e) => return Err(e) };
    }
    Err(unsupported("AVI file has no movi list"))
}

/// Adds where the data of the audio chunks of stream `target_stream_index` lies, from
/// `start` to `end`, descending into lists.
pub fn collect_avi_audio_chunks(input: &[u8], start: usize, end: usize, target_stream_index: usize, chunks: &mut Vec<(usize, usize)>) -> (r: Result<()>)
    ensures
        match avi_collect(input@, start as int, end as int, target_stream_index as int, old(chunks)@) {
            Ok(a) => r is Ok && final(chunks)@ == a,
            Err(e) => r is Err && failure(r->Err_0) == e,
        },
    decreases end - start,
{
    let len = input.len();
    let mut offset = start;
    while offset <= end && end - offset >= 8
        invariant
            len == input@.len(),
            start <= offset,
            avi_collect(input@, start as int, end as int, target_stream_index as int, old(chunks)@)
                == avi_collect(input@, offset as int, end as int, target_stream_index as int, chunks@),
        decreases end + 1 - offset,
    {
        let size = match read_u32_le_at(input, offset + 4) { Ok(v) => v as usize, Err(e) => return Err(e) };
        let ds = offset + 8;
        let de = match ds.checked_add(size) { Some(v) => v, None => return Err(invalid_data("AVI chunk range overflow")) };
        let id = &input[offset..offset + 4];
        if de > end || de > len {
            if bytes_are(id, &[0x69u8, 0x64, 0x78, 0x31]) {
                return Ok(());
            }
            return Err(unexpected_eof(de, if len < end { len } else { end }));
        }
        if bytes_are(id, &[0x4cu8, 0x49, 0x53, 0x54]) {
            if size >= 4 {
                match collect_avi_audio_chunks(input, ds + 4, de, target_stream_index, chunks) { Ok(()) => {}, Err(e) => return Err(e) }
            }
        } else {
            let wb: [u8; 2] = [119, 98];
            if avi_chunk_stream_index(id, &wb) == Some(target_stream_index) {
                chunks.push((ds, de));
            }
        }
        offset = match padded_avi_chunk_end(de) { Ok(v) => v, Err(e) => return Err(e) };
    }
    Ok(())
}

/// The checksum lines of `payload` from `off` on, in pieces of at most `max` bytes
/// (frames of `fb` bytes), after `acc` and timestamp `pts`.
pub open spec fn avi_pieces(payload: Seq<u8>, fb: int, max: int, off: int, pts: int, acc: Seq<FrameHashView>) -> core::result::Result<(Seq<FrameHashView>, int), Failure>
    decreases payload.len() - off,
{
    let end = if off + max < payload.len() { off + max } else { payload.len() as int };
    let out = payload.subrange(off, end);
    let d = (out.len() as int) / fb;
    if off >= payload.len() || max <= 0 || fb <= 0 {
        Ok((acc, pts))
    } else if d == 0 {
        avi_pieces(payload, fb, max, end, pts, acc)
    } else if d > u32::MAX {
        Err(Failure::Unsupported)
    } else if pts + d > u64::MAX {
        Err(Failure::InvalidData)
    } else {
        avi_pieces(payload, fb, max, end, pts + d, acc.push(audio_entry(pts, d, out.len() as int, out)))
    }
}

/// The 16-bit samples an AVI audio chunk holds.
pub open spec fn avi_payload(codec: Seq<u8>, c: Seq<u8>) -> core::result::Result<Seq<u8>, Failure> {
    if codec == seq![0x70u8, 0x63, 0x6d, 0x5f, 0x73, 0x31, 0x36, 0x6c, 0x65] {
        if c.len() % 2 != 0 { Err(Failure::InvalidData) } else { Ok(c) }
    } else if codec == seq![0x70u8, 0x63, 0x6d, 0x5f, 0x75, 0x38] {
        Ok(u8_pcm_as_s16le(c))
    } else {
        Err(Failure::Unsupported)
    }
}

/// The checksum lines of the audio chunks `i..` (where their data lies in `b`), after
/// `acc` and timestamp `pts`: 16-bit chunks in pieces of 256 frames, 8-bit chunks whole.
pub open spec fn avi_frames(b: Seq<u8>, chunks: Seq<(usize, usize)>, codec: Seq<u8>, fb: int, i: int, pts: int, acc: Seq<FrameHashView>) -> core::result::Result<Seq<FrameHashView>, Failure>
    decreases chunks.len() - i,
{
    if i < 0 || i >= chunks.len() {
        Ok(acc)
    } else {
        match avi_payload(codec, b.subrange(chunks[i].0 as int, chunks[i].1 as int)) {
            Err(e) => Err(e),
            Ok(p) => {
                let spo = if codec == seq![0x70u8, 0x63, 0x6d, 0x5f, 0x73, 0x31, 0x36, 0x6c, 0x65] { 256 } else { (p.len() as int) / fb };
                if p.len() % (fb as nat) != 0 {
                    Err(Failure::InvalidData)
                } else if p.len() == 0 {
                    avi_frames(b, chunks, codec, fb, i + 1, pts, acc)
                } else if spo * fb > usize::MAX {
                    Err(Failure::InvalidData)
                } else {
                    match avi_pieces(p, fb, spo * fb, 0, pts, acc) {
                        Err(e) => Err(e),
                        Ok(r) => avi_frames(b, chunks, codec, fb, i + 1, r.1, r.0),
                    }
                }
            },
        }
    }
}

/// The checksum listing of the PCM audio of stream `target` of an AVI file.
pub open spec fn spec_avi_pcm_frames(b: Seq<u8>, target: int, codec: Seq<u8>, channels: int) -> core::result::Result<Seq<FrameHashView>, Failure> {
    match spec_avi_movi_range(b) {
        Err(e) => Err(e),
        Ok(m) => match avi_collect(b, m.0 as int, m.1 as int, target, Seq::empty()) {
            Err(e) => Err(e),
            Ok(chunks) => if channels == 0 { Err(Failure::InvalidData) } else { avi_frames(b, chunks, codec, channels * 2, 0, 0, Seq::empty()) },
        },
    }
}

/// The checksum lines of the pieces of one chunk's samples.
fn avi_chunk_pieces(payload: &[u8], fb: usize, max: usize, pts: &mut u64, frames: &mut Vec<AudioFrameHash>) -> (r: Result<()>)
    requires
        fb > 0,
        max > 0,
    ensures
        match avi_pieces(payload@, fb as int, max as int, 0, *old(pts) as int, listing_view(old(frames)@)) {
            Ok(v) => r is Ok && listing_view(final(frames)@) == v.0 && *final(pts) == v.1,
            Err(e) => r is Err && failure(r->Err_0) == e,
        },
{
    let len = payload.len();
    let mut off: usize = 0;
    while off < len
        invariant
            len == payload@.len(),
            fb > 0,
            max > 0,
            off <= len,
            avi_pieces(payload@, fb as int, max as int, 0, *old(pts) as int, listing_view(old(frames)@))
                == avi_pieces(payload@, fb as int, max as int, off as int, *pts as int, listing_view(frames@)),
        decreases len - off,
    {
        let end = if max < len - off { off + max } else { len };
        let out = &payload[off..end];
        let d = out.len() / fb;
        if d == 0 {
            off = end;
            continue;
        }
        if d > 0xffff_ffff {
            return Err(unsupported("AVI PCM chunk duration is too large"));
        }
        if *pts > u64::MAX - d as u64 {
            return Err(invalid_data("AVI PCM timestamps overflow"));
        }
        let ghost before = frames@;
        frames.push(audio_frame_hash(*pts, d as u32, out.len(), out));
        assert(listing_view(frames@) =~= listing_view(before).push(audio_entry(*pts as int, d as int, out@.len() as int, out@)));
        *pts = *pts + d as u64;
        off = end;
    }
    Ok(())
}

/// The checksum listing of the 16-bit or 8-bit PCM audio of stream
/// `target_stream_index` of an AVI file.
pub fn avi_pcm_frames(input: &[u8], target_stream_index: usize, codec_name: &str, channels: u16) -> (r: Result<Vec<AudioFrameHash>>)
    ensures
        match spec_avi_pcm_frames(input@, target_stream_index as int, codec_name.spec_bytes(), channels as int) {
            Ok(l) => r is Ok && listing_view(r->Ok_0@) == l,
            Err(e) => r is Err && failure(r->Err_0) == e,
        },
{
    let (movi_start, movi_end) = match avi_movi_range(input) { Ok(v) => v, Err(e) => return Err(e) };
    let mut chunks: Vec<(usize, usize)> = Vec::new();
    match collect_avi_audio_chunks(input, movi_start, movi_end, target_stream_index, &mut chunks) { Ok(()) => {}, Err(e) => return Err(e) }
    proof {
        lemma_avi_collect_bounds(input@, movi_start as int, movi_end as int, target_stream_index as int, Seq::empty());
    }
    let fb = channels as usize * 2;
    if fb == 0 {
        return Err(invalid_data("AVI PCM stream has zero channels"));
    }
    let codec = codec_name.as_bytes();
    let s16le = bytes_are(codec, &[0x70u8, 0x63, 0x6d, 0x5f, 0x73, 0x31, 0x36, 0x6c, 0x65]);
    let u8pcm = bytes_are(codec, &[0x70u8, 0x63, 0x6d, 0x5f, 0x75, 0x38]);
    let ghost cv = chunks@;
    let mut frames: Vec<AudioFrameHash> = Vec::new();
    let mut pts: u64 = 0;
    let mut i: usize = 0;
    assert(listing_view(frames@) =~= Seq::<FrameHashView>::empty());
    while i < chunks.len()
        invariant
            cv == chunks@,
            places_within(cv, input@.len() as int),
            codec@ == codec_name.spec_bytes(),
            s16le == (codec@ == seq![0x70u8, 0x63, 0x6d, 0x5f, 0x73, 0x31, 0x36, 0x6c, 0x65]),
            u8pcm == (codec@ == seq![0x70u8, 0x63, 0x6d, 0x5f, 0x75, 0x38]),
            fb == channels * 2,
            fb > 0,
            i <= chunks@.len(),
            spec_avi_pcm_frames(input@, target_stream_index as int, codec_name.spec_bytes(), channels as int)
                == avi_frames(input@, cv, codec@, fb as int, i as int, pts as int, listing_view(frames@)),
        decreases chunks@.len() - i,
    {
        let (start, stop) = chunks[i];
        assert(place_within(cv[i as int], input@.len() as int));
        let chunk = &input[start..stop];
        let payload: Vec<u8> = if s16le {
            if chunk.len() % 2 != 0 {
                return Err(invalid_data("AVI s16le chunk has trailing partial sample"));
            }
            let mut p: Vec<u8> = Vec::new();
            append_bytes(&mut p, chunk);
            p
        } else if u8pcm {
            pcm_u8_to_s16le_bytes(chunk)
        } else {
            return Err(RmpegError::Unsupported(crate::error::join3("AVI audio codec ", codec_name, " is not supported PCM")));
        };
        if payload.len() % fb != 0 {
            return Err(invalid_data("AVI PCM chunk is not channel-aligned"));
        }
        if payload.len() == 0 {
            i = i + 1;
            continue;
        }
        assert(payload@.len() / (fb as nat) >= 1) by (nonlinear_arith)
            requires
                payload@.len() > 0,
                payload@.len() % (fb as nat) == 0,
                fb > 0,
        ;
        let spo: usize = if s16le { 256 } else { payload.len() / fb };
        let max = match spo.checked_mul(fb) { Some(v) => v, None => return Err(invalid_data("AVI PCM frame size overflow")) };
        assert(max > 0) by (nonlinear_arith)
            requires
                max == spo * fb,
                spo >= 1,
                fb > 0,
        ;
        match avi_chunk_pieces(payload.as_slice(), fb, max, &mut pts, &mut frames) { Ok(()) => {}, Err(e) => return Err(e) }
        i = i + 1;
    }
    Ok(frames)
}

/// Whether each place `(start, end)` of `p` has `start <= end <= n`.
pub open spec fn places_within(p: Seq<(usize, usize)>, n: int) -> bool {
    forall|k: int| 0 <= k < p.len() ==> place_within(#[trigger] p[k], n)
}

/// Whether `start <= end <= n`.
pub open spec fn place_within(p: (usize, usize), n: int) -> bool {
    p.0 <= p.1 <= n
}

/// Every place `avi_collect` gives lies within the input, given that those before it do.
pub proof fn lemma_avi_collect_bounds(b: Seq<u8>, offset: int, end: int, target: int, acc: Seq<(usize, usize)>)
    requires
        places_within(acc, b.len() as int),
    ensures
        avi_collect(b, offset, end, target, acc) matches Ok(a) ==> places_within(a, b.len() as int),
    decreases (if offset < end { end - offset } else { 0 }),
{
    let id = b.subrange(offset, offset + 4);
    let size = u32_le(b, offset + 4);
    let ds = offset + 8;
    let de = ds + size;
    if offset < 0 || offset + 8 > end || offset + 8 > b.len() || de > usize::MAX || de > end || de > b.len() {
    } else {
        let inner = if id == seq![0x4cu8, 0x49, 0x53, 0x54] {
            if size >= 4 { avi_collect(b, ds + 4, de, target, acc) } else { Ok(acc) }
        } else if avi_stream_of(id, 119, 98) == Some(target) {
            Ok(acc.push((ds as usize, de as usize)))
        } else {
            Ok(acc)
        };
        if id == seq![0x4cu8, 0x49, 0x53, 0x54] && size >= 4 {
            lemma_avi_collect_bounds(b, ds + 4, de, target, acc);
        }
        if let Ok(a) = inner {
            if de + de % 2 <= usize::MAX {
                lemma_avi_collect_bounds(b, de + de % 2, end, target, a);
            }
        }
    }
}

/// The little-endian bytes of a 16-bit value.
pub open spec fn le16s(v: int) -> Seq<u8> {
    seq![(v % 256) as u8, (v / 256 % 256) as u8]
}

/// The little-endian bytes of a 32-bit value.
pub open spec fn le32s(v: int) -> Seq<u8> {
    seq![(v % 256) as u8, (v / 0x100 % 256) as u8, (v / 0x1_0000 % 256) as u8, (v / 0x100_0000 % 256) as u8]
}

/// The WAV stream ffmpeg writes to a pipe for decoded audio: a RIFF header with unknown
/// (all-ones) sizes, a 16-bit PCM format chunk, an `INFO` list naming the encoder, and
/// the samples.
pub open spec fn spec_wav_pipe(d: DecodedAudio) -> core::result::Result<Seq<u8>, Failure> {
    let ch = d.channels as int;
    let ba = ch * 2;
    let br = d.sample_rate * ba;
    if ch == 0 || d.samples@.len() % (ch as nat) != 0 {
        Err(Failure::InvalidData)
    } else if ba > u16::MAX || br > u32::MAX {
        Err(Failure::InvalidData)
    } else {
        Ok(seq![0x52u8, 0x49, 0x46, 0x46] + le32s(u32::MAX as int) + seq![0x57u8, 0x41, 0x56, 0x45, 0x66, 0x6d, 0x74, 0x20] + le32s(16) + le16s(1) + le16s(ch) + le32s(d.sample_rate as int)
            + le32s(br) + le16s(ba) + le16s(16) + seq![0x4cu8, 0x49, 0x53, 0x54] + le32s(26) + seq![0x49u8, 0x4e, 0x46, 0x4f, 0x49, 0x53, 0x46, 0x54] + le32s(13)
            + seq![0x4cu8, 0x61, 0x76, 0x66, 0x36, 0x32, 0x2e, 0x33, 0x2e, 0x31, 0x30, 0x30, 0x00] + seq![0u8] + seq![0x64u8, 0x61, 0x74, 0x61] + le32s(u32::MAX as int) + s16le_bytes(d.samples@))
    }
}

/// Appends the little-endian bytes of a 16-bit value.
fn push_le16(out: &mut Vec<u8>, v: u16)
    ensures
        final(out)@ == old(out)@ + le16s(v as int),
{
    out.push((v % 256) as u8);
    out.push((v / 256 % 256) as u8);
    assert(final(out)@ =~= old(out)@ + le16s(v as int));
}

/// Appends the little-endian bytes of a 32-bit value.
fn push_le32(out: &mut Vec<u8>, v: u32)
    ensures
        final(out)@ == old(out)@ + le32s(v as int),
{
    out.push((v % 256) as u8);
    out.push((v / 0x100 % 256) as u8);
    out.push((v / 0x1_0000 % 256) as u8);
    out.push((v / 0x100_0000 % 256) as u8);
    assert(final(out)@ =~= old(out)@ + le32s(v as int));
}

/// The WAV stream written to a pipe for decoded audio.
pub fn wav_pipe_bytes(decoded: &DecodedAudio) -> (r: Result<Vec<u8>>)
    ensures
        match spec_wav_pipe(*decoded) {
            Ok(s) => r is Ok && r->Ok_0@ == s,
            Err(e) => r is Err && failure(r->Err_0) == e,
        },
{
    let ch = decoded.channels as usize;
    if ch == 0 {
        return Err(invalid_data("decoded audio has zero channels"));
    }
    if decoded.samples.len() % ch != 0 {
        return Err(invalid_data("decoded audio sample count is not channel-aligned"));
    }
    if decoded.channels > 0x7fff {
        return Err(invalid_data("WAV block align overflow"));
    }
    let block_align: u16 = decoded.channels * 2;
    let byte_rate = match decoded.sample_rate.checked_mul(block_align as u32) {
        Some(v) => v,
        None => return Err(invalid_data("WAV byte rate overflow")),
    };
    let pcm = samples_to_s16le_bytes(decoded.samples.as_slice());
    let mut bytes: Vec<u8> = Vec::new();
    append_bytes(&mut bytes, &[0x52u8, 0x49, 0x46, 0x46]);
    push_le32(&mut bytes, 0xffff_ffff);
    append_bytes(&mut bytes, &[0x57u8, 0x41, 0x56, 0x45, 0x66, 0x6d, 0x74, 0x20]);
    push_le32(&mut bytes, 16);
    push_le16(&mut bytes, 1);
    push_le16(&mut bytes, decoded.channels);
    push_le32(&mut bytes, decoded.sample_rate);
    push_le32(&mut bytes, byte_rate);
    push_le16(&mut bytes, block_align);
    push_le16(&mut bytes, 16);
    append_bytes(&mut bytes, &[0x4cu8, 0x49, 0x53, 0x54]);
    push_le32(&mut bytes, 26);
    append_bytes(&mut bytes, &[0x49u8, 0x4e, 0x46, 0x4f, 0x49, 0x53, 0x46, 0x54]);
    push_le32(&mut bytes, 13);
    append_bytes(&mut bytes, &[0x4cu8, 0x61, 0x76, 0x66, 0x36, 0x32, 0x2e, 0x33, 0x2e, 0x31, 0x30, 0x30, 0x00]);
    bytes.push(0);
    append_bytes(&mut bytes, &[0x64u8, 0x61, 0x74, 0x61]);
    push_le32(&mut bytes, 0xffff_ffff);
    append_bytes(&mut bytes, pcm.as_slice());
    let ghost expected = seq![0x52u8, 0x49, 0x46, 0x46] + le32s(u32::MAX as int) + seq![0x57u8, 0x41, 0x56, 0x45, 0x66, 0x6d, 0x74, 0x20] + le32s(16) + le16s(1) + le16s(decoded.channels as int)
        + le32s(decoded.sample_rate as int) + le32s(byte_rate as int) + le16s(block_align as int) + le16s(16) + seq![0x4cu8, 0x49, 0x53, 0x54] + le32s(26)
        + seq![0x49u8, 0x4e, 0x46, 0x4f, 0x49, 0x53, 0x46, 0x54] + le32s(13) + seq![0x4cu8, 0x61, 0x76, 0x66, 0x36, 0x32, 0x2e, 0x33, 0x2e, 0x31, 0x30, 0x30, 0x00] + seq![0u8] + seq![0x64u8, 0x61, 0x74, 0x61] + le32s(u32::MAX as int) + s16le_bytes(decoded.samples@);
    assert(bytes@ =~= expected);
    Ok(bytes)
}

/// Ten to the power `n`.
pub open spec fn pow10(n: nat) -> int
    decreases n,
{
    if n == 0 { 1 } else { 10 * pow10((n - 1) as nat) }
}

/// Powers of ten grow with the exponent.
pub proof fn lemma_pow10_mono(a: nat, b: nat)
    requires
        a <= b,
    ensures
        1 <= pow10(a) <= pow10(b),
    decreases b,
{
    if b > a {
        lemma_pow10_mono(a, (b - 1) as nat);
    } else if a > 0 {
        lemma_pow10_mono((a - 1) as nat, (a - 1) as nat);
    }
}

/// The sample frame at which a start time written as a non-negative decimal number of
/// seconds falls at `rate` samples a second: the exact product rounded down.
pub open spec fn spec_decimal_samples(text: Seq<u8>, rate: int) -> core::result::Result<int, Failure> {
    let t = trimmed(text);
    let dot = first_tag(t, seq![46u8]);
    let whole = match dot { Some(k) => t.subrange(0, k), None => t };
    let frac = match dot { Some(k) => t.subrange(k + 1, t.len() as int), None => Seq::empty() };
    let w = digits_value(whole, 10);
    let f = digits_value(frac, 10);
    let scale = pow10(frac.len());
    let n = w * scale + f;
    if t.len() == 0 || t[0] == 45 || (whole.len() == 0 && frac.len() == 0) || !all_dec(whole) || !all_dec(frac) {
        Err(Failure::Usage)
    } else if w > u128::MAX || scale > u128::MAX || n > u128::MAX || n * rate > u128::MAX || n * rate / scale > usize::MAX {
        Err(Failure::Usage)
    } else {
        Ok(n * rate / scale)
    }
}

/// The value of the decimal digits `t[a..b]`, if it fits 128 bits.
fn digits_u128(t: &[u8], a: usize, b: usize) -> (r: Option<u128>)
    requires
        a <= b <= t@.len(),
        all_dec(t@.subrange(a as int, b as int)),
    ensures
        digits_value(t@.subrange(a as int, b as int), 10) > u128::MAX ==> r is None,
        digits_value(t@.subrange(a as int, b as int), 10) <= u128::MAX ==> r == Some(digits_value(t@.subrange(a as int, b as int), 10) as u128),
{
    let mut v: u128 = 0;
    let mut over = false;
    let mut i = a;
    while i < b
        invariant
            a <= i <= b <= t@.len(),
            all_dec(t@.subrange(a as int, b as int)),
            digits_value(t@.subrange(a as int, i as int), 10) >= 0,
            over <==> digits_value(t@.subrange(a as int, i as int), 10) > u128::MAX,
            !over ==> v == digits_value(t@.subrange(a as int, i as int), 10),
        decreases b - i,
    {
        assert(is_dec(t@.subrange(a as int, b as int)[i - a]));
        let d = (t[i] - 48) as u128;
        proof {
            assert(t@.subrange(a as int, i + 1).drop_last() =~= t@.subrange(a as int, i as int));
            assert(t@.subrange(a as int, i + 1).last() == t@[i as int]);
        }
        if !over {
            match v.checked_mul(10) {
                Some(x) => match x.checked_add(d) {
                    Some(y) => v = y,
                    None => over = true,
                },
                None => over = true,
            }
        }
        i = i + 1;
    }
    if over { None } else { Some(v) }
}

/// The sample frame at which a start time of `text` seconds falls at `sample_rate`.
pub fn decimal_seconds_to_samples(text: &str, sample_rate: u32) -> (r: Result<usize>)
    ensures
        match spec_decimal_samples(text.spec_bytes(), sample_rate as int) {
            Ok(v) => r == Ok::<usize, RmpegError>(v as usize),
            Err(e) => r is Err && failure(r->Err_0) == e,
        },
{
    let all = text.as_bytes();
    let (a, b) = trim_bounds(all);
    let t = &all[a..b];
    let n = t.len();
    if n == 0 || t[0] == 45 {
        return Err(RmpegError::Usage(String::from_str("start time must be a non-negative decimal")));
    }
    let dot_mark: [u8; 1] = [46];
    assert(dot_mark@ =~= seq![46u8]);
    let (we, fs) = match find_tag(t, &dot_mark) {
        Some(k) => {
            proof {
                crate::bytes::lemma_first_tag_found(t@, seq![46u8], k as int);
            }
            (k, k + 1)
        },
        None => (n, n),
    };
    let whole = &t[0..we];
    let frac = &t[fs..n];
    proof {
        let tt = trimmed(text.spec_bytes());
        assert(t@ == tt);
        let dot = first_tag(tt, seq![46u8]);
        let sw = match dot { Some(k) => tt.subrange(0, k), None => tt };
        let sf = match dot { Some(k) => tt.subrange(k + 1, tt.len() as int), None => Seq::<u8>::empty() };
        assert(whole@ =~= sw);
        assert(frac@ =~= sf);
    }
    if whole.len() == 0 && frac.len() == 0 {
        return Err(RmpegError::Usage(String::from_str("start time must be a non-negative decimal")));
    }
    if !all_digits(whole) || !all_digits(frac) {
        return Err(RmpegError::Usage(String::from_str("start time must be a non-negative decimal")));
    }
    assert(whole@.subrange(0, whole@.len() as int) =~= whole@);
    assert(frac@.subrange(0, frac@.len() as int) =~= frac@);
    let w = match digits_u128(whole, 0, whole.len()) {
        Some(v) => v,
        None => return Err(RmpegError::Usage(String::from_str("start time is too large"))),
    };
    let scale = match pow10_u128(frac.len()) {
        Some(v) => v,
        None => return Err(RmpegError::Usage(String::from_str("start time is too precise"))),
    };
    let ghost big_w = digits_value(whole@, 10);
    let ghost big_f = digits_value(frac@, 10);
    let ghost big_s = pow10(frac@.len());
    proof {
        crate::text::lemma_digits_value_nonneg(frac@, 10);
        crate::text::lemma_digits_value_nonneg(whole@, 10);
        lemma_pow10_mono(0, frac@.len());
        assert(big_w * big_s >= 0) by (nonlinear_arith)
            requires
                big_w >= 0,
                big_s >= 1,
        ;
    }
    let f = match digits_u128(frac, 0, frac.len()) {
        Some(v) => v,
        None => return Err(RmpegError::Usage(String::from_str("start time is too large"))),
    };
    let numerator = match w.checked_mul(scale) {
        Some(x) => match x.checked_add(f) {
            Some(y) => y,
            None => return Err(RmpegError::Usage(String::from_str("start time is too large"))),
        },
        None => return Err(RmpegError::Usage(String::from_str("start time is too large"))),
    };
    assert(w == big_w);
    assert(f == big_f);
    assert(scale == big_s);
    assert(numerator == big_w * big_s + big_f);
    let product = match numerator.checked_mul(sample_rate as u128) {
        Some(v) => v,
        None => return Err(RmpegError::Usage(String::from_str("start time is too large"))),
    };
    proof {
        lemma_pow10_mono(0, frac@.len());
    }
    let samples = product / scale;
    if samples > usize::MAX as u128 {
        return Err(RmpegError::Usage(String::from_str("start time is too large")));
    }
    Ok(samples as usize)
}

/// Ten to the power `n`, if it fits 128 bits.
fn pow10_u128(n: usize) -> (r: Option<u128>)
    ensures
        pow10(n as nat) > u128::MAX ==> r is None,
        pow10(n as nat) <= u128::MAX ==> r == Some(pow10(n as nat) as u128),
{
    let mut scale: u128 = 1;
    let mut i: usize = 0;
    while i < n
        invariant
            i <= n,
            scale == pow10(i as nat),
        decreases n - i,
    {
        scale = match scale.checked_mul(10) {
            Some(v) => v,
            None => {
                proof {
                    lemma_pow10_mono((i + 1) as nat, n as nat);
                }
                return None;
            },
        };
        i = i + 1;
    }
    Some(scale)
}

/// Whether every byte of `t` is a decimal digit.
fn all_digits(t: &[u8]) -> (r: bool)
    ensures
        r == all_dec(t@),
{
    let mut i: usize = 0;
    while i < t.len()
        invariant
            i <= t@.len(),
            forall|k: int| 0 <= k < i ==> is_dec(#[trigger] t@[k]),
        decreases t@.len() - i,
    {
        if !is_dec_digit(t[i]) {
            assert(!is_dec(t@[i as int]));
            return false;
        }
        i = i + 1;
    }
    true
}

/// Samples written as 16-bit little-endian bytes read back as the same samples.
pub proof fn law_s16le_round_trip(s: Seq<i16>)
    ensures
        top16_samples(s16le_bytes(s), 2) == s,
{
    let b = s16le_bytes(s);
    assert forall|k: int| 0 <= k < s.len() implies #[trigger] top16_samples(b, 2)[k] == s[k] by {
        let x = s[k];
        let u = x as u16;
        assert(b[k * 2 + 2 - 2] == (u % 256) as u8);
        assert(b[k * 2 + 2 - 1] == (u / 256) as u8);
        assert(((u / 256) as u8) as u16 * 256 + ((u % 256) as u8) as u16 == u);
        assert((u as i16) == x) by (bit_vector)
            requires
                u == x as u16,
        ;
    }
    assert(top16_samples(b, 2) =~= s);
}

/// 8-bit unsigned PCM turned into 16-bit bytes and read as 16-bit samples gives the
/// samples that decoding it directly gives.
pub proof fn law_u8_pcm_paths_agree(p: Seq<u8>)
    ensures
        top16_samples(u8_pcm_as_s16le(p), 2) == u8_samples(p),
{
    let b = u8_pcm_as_s16le(p);
    assert forall|k: int| 0 <= k < p.len() implies #[trigger] top16_samples(b, 2)[k] == u8_samples(p)[k] by {
        let x = p[k];
        assert(b[k * 2 + 2 - 2] == 0u8);
        assert(b[k * 2 + 2 - 1] == ((x + 128) % 256) as u8);
        let h: u16 = (((x as u16) + 128) % 256) as u16;
        assert(((h * 256) as u16) as i16 == ((x as i16 - 128) * 256) as i16) by (bit_vector)
            requires
                h == ((x as u16) + 128) % 256,
        ;
        assert(((x + 128) % 256) as u8 as u16 == h);
    }
    assert(top16_samples(b, 2) =~= u8_samples(p));
}

/// The WAV pipe stream is its 78-byte header and then two bytes per sample.
pub proof fn law_wav_pipe_length(d: DecodedAudio)
    ensures
        spec_wav_pipe(d) matches Ok(b) ==> b.len() == 78 + 2 * d.samples@.len(),
{
}


/// Two bytes written little-endian read back as the value.
proof fn lemma_le16s_reads(v: u16)
    ensures
        u16_le(le16s(v as int), 0) == v,
{
    assert((v % 256) + 256 * (v / 256 % 256) == v) by (bit_vector);
}

/// Four bytes written little-endian read back as the value.
proof fn lemma_le32s_reads(v: u32)
    ensures
        u32_le(le32s(v as int), 0) == v,
{
    assert((v % 256) + 256 * (v / 0x100 % 256) + 65536 * ((v / 0x1_0000 % 256) + 256 * (v / 0x100_0000 % 256)) == v)
        by (bit_vector);
}

/// The format chunk of the WAV stream describes the samples that follow: PCM (format
/// 1), the audio's channel count and rate, 16 bits a sample, a block of two bytes per
/// channel, and a byte rate of one block per sample frame.
pub proof fn law_wav_pipe_format_chunk(d: DecodedAudio)
    ensures
        spec_wav_pipe(d) matches Ok(b) ==> {
            &&& u16_le(b, 20) == 1
            &&& u16_le(b, 22) == d.channels
            &&& u32_le(b, 24) == d.sample_rate
            &&& u16_le(b, 34) == 16
            &&& u16_le(b, 32) == d.channels * u16_le(b, 34) / 8
            &&& u16_le(b, 32) == 2 * d.channels
            &&& u32_le(b, 28) == d.sample_rate * u16_le(b, 32)
        },
{
    if let Ok(b) = spec_wav_pipe(d) {
        let ch = d.channels as int;
        let ba = ch * 2;
        let br = d.sample_rate * ba;
        lemma_le16s_reads(1);
        lemma_le16s_reads(d.channels);
        lemma_le32s_reads(d.sample_rate);
        lemma_le16s_reads(16);
        lemma_le16s_reads(ba as u16);
        lemma_le32s_reads(br as u32);
        assert(b.subrange(20, 22) =~= le16s(1));
        assert(b.subrange(22, 24) =~= le16s(ch));
        assert(b.subrange(24, 28) =~= le32s(d.sample_rate as int));
        assert(b.subrange(28, 32) =~= le32s(br));
        assert(b.subrange(32, 34) =~= le16s(ba));
        assert(b.subrange(34, 36) =~= le16s(16));
        assert(b[20] == le16s(1)[0] && b[21] == le16s(1)[1]);
        assert(b[22] == le16s(ch)[0] && b[23] == le16s(ch)[1]);
        assert(b[24] == le32s(d.sample_rate as int)[0] && b[25] == le32s(d.sample_rate as int)[1]
            && b[26] == le32s(d.sample_rate as int)[2] && b[27] == le32s(d.sample_rate as int)[3]);
        assert(b[28] == le32s(br)[0] && b[29] == le32s(br)[1] && b[30] == le32s(br)[2] && b[31] == le32s(br)[3]);
        assert(b[32] == le16s(ba)[0] && b[33] == le16s(ba)[1]);
        assert(b[34] == le16s(16)[0] && b[35] == le16s(16)[1]);
    }
}

/// `n` zero bytes.
pub open spec fn zero_bytes(n: int) -> Seq<u8> {
    Seq::new(n as nat, |i: int| 0u8)
}

/// The lines of `count` black YUV 4:2:0 frames of `size` bytes each: frame `k` is all
/// zero bytes, at time `k`.
pub open spec fn black_frame_lines(size: int, count: int) -> Seq<FrameHashView> {
    Seq::new(count as nat, |k: int| frame_entry(k, zero_bytes(size)))
}

/// The listing of a video stream that is not decoded: `frame_count` black frames of a
/// `width` by `height` YUV 4:2:0 picture at the given frame rate.
pub fn baseline_video_frame_hashes(width: u32, height: u32, frame_rate: (u32, u32), frame_count: usize) -> (r: Result<VideoFrameHashDocument>)
    ensures
        width * height * 3 > u64::MAX ==> r is Err && failure(r->Err_0) == Failure::InvalidData,
        width * height * 3 <= u64::MAX && width * height * 3 / 2 > usize::MAX ==> r is Err && failure(r->Err_0) == Failure::Unsupported,
        width * height * 3 <= u64::MAX && width * height * 3 / 2 <= usize::MAX ==> video_listing_outcome(r) == Ok::<VideoListing, Failure>(VideoListing {
            width: width as int,
            height: height as int,
            frame_rate_num: frame_rate.0 as int,
            frame_rate_den: frame_rate.1 as int,
            frames: black_frame_lines(width * height * 3 / 2, frame_count as int),
        }),
{
    let frame_size = match yuv420p_frame_size(width, height) {
        Ok(v) => v,
        Err(e) => return Err(e),
    };
    let zeros = vec![0u8; frame_size];
    assert(zeros@ =~= zero_bytes(frame_size as int)) by {
        assert forall|i: int| 0 <= i < frame_size implies zeros@[i] == 0u8 by {
            assert(cloned(0u8, zeros@[i]));
        }
    }
    let hash = md5_hex(zeros.as_slice());
    let mut frames: Vec<AudioFrameHash> = Vec::new();
    let mut k: usize = 0;
    while k < frame_count
        invariant
            k <= frame_count,
            hash@ == hex_chars(md5_digest(zero_bytes(frame_size as int))),
            listing_view(frames@) == black_frame_lines(frame_size as int, k as int),
        decreases frame_count - k,
    {
        let line = AudioFrameHash {
            stream_index: 0,
            dts: k as u64,
            pts: k as u64,
            duration: 1,
            size: frame_size,
            hash: hash.clone(),
        };
        assert(zero_bytes(frame_size as int).len() == frame_size);
        assert(line@ == frame_entry(k as int, zero_bytes(frame_size as int)));
        let ghost before = frames@;
        frames.push(line);
        assert(listing_view(frames@) =~= listing_view(before).push(line@));
        assert(listing_view(frames@) =~= black_frame_lines(frame_size as int, (k + 1) as int));
        k = k + 1;
    }
    Ok(VideoFrameHashDocument {
        width,
        height,
        frame_rate_num: frame_rate.0,
        frame_rate_den: frame_rate.1,
        frames,
    })
}

/// Where playback from sample frame `start` begins in `len` interleaved samples of
/// `channels` channels: `start` frames in, the product saturating, but no further than
/// the end.
pub open spec fn seek_offset(start: int, channels: int, len: int) -> int {
    let raw = if start * channels > usize::MAX { usize::MAX as int } else { start * channels };
    if raw < len { raw } else { len }
}

/// Decoded audio from sample frame `start` on: the samples before it dropped.
pub fn skip_sample_frames(decoded: DecodedAudio, start: usize) -> (r: DecodedAudio)
    ensures
        r.sample_rate == decoded.sample_rate,
        r.channels == decoded.channels,
        r.samples@ == decoded.samples@.subrange(
            seek_offset(start as int, decoded.channels as int, decoded.samples@.len() as int),
            decoded.samples@.len() as int,
        ),
{
    let channels = decoded.channels as usize;
    let raw = match start.checked_mul(channels) { Some(v) => v, None => usize::MAX };
    let mut samples = decoded.samples;
    let offset = if raw < samples.len() { raw } else { samples.len() };
    let rest = samples.split_off(offset);
    DecodedAudio { sample_rate: decoded.sample_rate, channels: decoded.channels, samples: rest }
}


/// The image decoders that `decode-image` chooses between.
#[derive(Debug, Clone, Copy, PartialEq, Eq)]
pub enum ImageCodec {
    Bmp,
    Dds,
    Dpx,
    Fits,
    Pnm,
    Pix,
    Ptx,
    Sunrast,
    Sgi,
    Tga,
    Xbm,
    Png,
}

/// The decoder for a file extension, in any ASCII case: `bmp`, `dds`, `dpx`, `fit`,
/// `fits` or `fts`, `pbm`, `pgm`, `pnm` or `ppm`, `pix`, `ptx`, `ras` or `sun`, `sgi`,
/// `tga` and `xbm` name their decoders; anything else is tried as PNG.
pub open spec fn spec_image_codec(e: Option<&str>) -> ImageCodec {
    if extension_is(e, seq![0x62u8, 0x6d, 0x70]) {
        ImageCodec::Bmp
    } else if extension_is(e, seq![0x64u8, 0x64, 0x73]) {
        ImageCodec::Dds
    } else if extension_is(e, seq![0x64u8, 0x70, 0x78]) {
        ImageCodec::Dpx
    } else if extension_is(e, seq![0x66u8, 0x69, 0x74]) || extension_is(e, seq![0x66u8, 0x69, 0x74, 0x73])
        || extension_is(e, seq![0x66u8, 0x74, 0x73]) {
        ImageCodec::Fits
    } else if extension_is(e, seq![0x70u8, 0x62, 0x6d]) || extension_is(e, seq![0x70u8, 0x67, 0x6d])
        || extension_is(e, seq![0x70u8, 0x6e, 0x6d]) || extension_is(e, seq![0x70u8, 0x70, 0x6d]) {
        ImageCodec::Pnm
    } else if extension_is(e, seq![0x70u8, 0x69, 0x78]) {
        ImageCodec::Pix
    } else if extension_is(e, seq![0x70u8, 0x74, 0x78]) {
        ImageCodec::Ptx
    } else if extension_is(e, seq![0x72u8, 0x61, 0x73]) || extension_is(e, seq![0x73u8, 0x75, 0x6e]) {
        ImageCodec::Sunrast
    } else if extension_is(e, seq![0x73u8, 0x67, 0x69]) {
        ImageCodec::Sgi
    } else if extension_is(e, seq![0x74u8, 0x67, 0x61]) {
        ImageCodec::Tga
    } else if extension_is(e, seq![0x78u8, 0x62, 0x6d]) {
        ImageCodec::Xbm
    } else {
        ImageCodec::Png
    }
}

/// Picks the image decoder for a file extension.
pub fn image_codec(extension: Option<&str>) -> (r: ImageCodec)
    ensures
        r == spec_image_codec(extension),
{
    let bmp: [u8; 3] = [0x62, 0x6d, 0x70];
    let dds: [u8; 3] = [0x64, 0x64, 0x73];
    let dpx: [u8; 3] = [0x64, 0x70, 0x78];
    let fit: [u8; 3] = [0x66, 0x69, 0x74];
    let fits: [u8; 4] = [0x66, 0x69, 0x74, 0x73];
    let fts: [u8; 3] = [0x66, 0x74, 0x73];
    let pbm: [u8; 3] = [0x70, 0x62, 0x6d];
    let pgm: [u8; 3] = [0x70, 0x67, 0x6d];
    let pnm: [u8; 3] = [0x70, 0x6e, 0x6d];
    let ppm: [u8; 3] = [0x70, 0x70, 0x6d];
    let pix: [u8; 3] = [0x70, 0x69, 0x78];
    let ptx: [u8; 3] = [0x70, 0x74, 0x78];
    let ras: [u8; 3] = [0x72, 0x61, 0x73];
    let sun: [u8; 3] = [0x73, 0x75, 0x6e];
    let sgi: [u8; 3] = [0x73, 0x67, 0x69];
    let tga: [u8; 3] = [0x74, 0x67, 0x61];
    let xbm: [u8; 3] = [0x78, 0x62, 0x6d];
    assert(bmp@ =~= seq![0x62u8, 0x6d, 0x70]);
    assert(dds@ =~= seq![0x64u8, 0x64, 0x73]);
    assert(dpx@ =~= seq![0x64u8, 0x70, 0x78]);
    assert(fit@ =~= seq![0x66u8, 0x69, 0x74]);
    assert(fits@ =~= seq![0x66u8, 0x69, 0x74, 0x73]);
    assert(fts@ =~= seq![0x66u8, 0x74, 0x73]);
    assert(pbm@ =~= seq![0x70u8, 0x62, 0x6d]);
    assert(pgm@ =~= seq![0x70u8, 0x67, 0x6d]);
    assert(pnm@ =~= seq![0x70u8, 0x6e, 0x6d]);
    assert(ppm@ =~= seq![0x70u8, 0x70, 0x6d]);
    assert(pix@ =~= seq![0x70u8, 0x69, 0x78]);
    assert(ptx@ =~= seq![0x70u8, 0x74, 0x78]);
    assert(ras@ =~= seq![0x72u8, 0x61, 0x73]);
    assert(sun@ =~= seq![0x73u8, 0x75, 0x6e]);
    assert(sgi@ =~= seq![0x73u8, 0x67, 0x69]);
    assert(tga@ =~= seq![0x74u8, 0x67, 0x61]);
    assert(xbm@ =~= seq![0x78u8, 0x62, 0x6d]);
    if has_extension(extension, &bmp) {
        ImageCodec::Bmp
    } else if has_extension(extension, &dds) {
        ImageCodec::Dds
    } else if has_extension(extension, &dpx) {
        ImageCodec::Dpx
    } else if has_extension(extension, &fit) || has_extension(extension, &fits) || has_extension(extension, &fts) {
        ImageCodec::Fits
    } else if has_extension(extension, &pbm) || has_extension(extension, &pgm) || has_extension(extension, &pnm)
        || has_extension(extension, &ppm) {
        ImageCodec::Pnm
    } else if has_extension(extension, &pix) {
        ImageCodec::Pix
    } else if has_extension(extension, &ptx) {
        ImageCodec::Ptx
    } else if has_extension(extension, &ras) || has_extension(extension, &sun) {
        ImageCodec::Sunrast
    } else if has_extension(extension, &sgi) {
        ImageCodec::Sgi
    } else if has_extension(extension, &tga) {
        ImageCodec::Tga
    } else if has_extension(extension, &xbm) {
        ImageCodec::Xbm
    } else {
        ImageCodec::Png
    }
}

} // verus!
