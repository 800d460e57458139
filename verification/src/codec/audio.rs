use vstd::prelude::*;
use crate::bytes::{sat, sat_add, first_tag, find_tag, has_tag, le64, tag_at, u64_le};
use crate::error::{eof, failure, invalid_data, outcome, unexpected_eof, unsupported, Failure, Result, RmpegError};
use crate::bits::two_pow;
use crate::bytes::append_bytes;
use crate::codec::digest::{audio_entry, audio_frame_hash, listing_outcome, listing_view, FrameHashView};
use crate::codec::pcm::{spec_samples_per_frame, wav_framemd5_samples_per_frame};
use crate::metadata::AudioFrameHash;
use crate::text::{eq_ignore_case, span_eq_ignore_case};
use crate::error::{error_text, with_number};
use vstd::string::StringSliceAdditionalSpecFns;

verus! {

/// The checksum listing of decoded audio, with its rate and channel count.
#[derive(Debug, Clone, PartialEq, Eq)]
pub struct AudioFrameHashDocument {
    pub sample_rate: u32,
    pub channels: u16,
    pub frames: Vec<AudioFrameHash>,
}

/// Decoded audio: interleaved 16-bit samples, with their rate and channel count.
#[derive(Debug, Clone, PartialEq, Eq)]
pub struct DecodedAudio {
    pub sample_rate: u32,
    pub channels: u16,
    pub samples: Vec<i16>,
}

/// Samples as two's-complement 16-bit little-endian bytes.
pub open spec fn s16le_bytes(s: Seq<i16>) -> Seq<u8> {
    Seq::new(2 * s.len(), |i: int| {
        let u = s[i / 2] as u16;
        if i % 2 == 0 { (u % 256) as u8 } else { (u / 256) as u8 }
    })
}

/// The checksum lines of interleaved samples of `cc` channels from sample frame `pts` on
/// (of `total`), after `acc`: frames of `spf` sample frames, the last one shorter.
pub open spec fn sample_listing(s: Seq<i16>, cc: int, spf: int, total: int, pts: int, acc: Seq<FrameHashView>) -> Seq<FrameHashView>
    decreases total - pts,
{
    let d = if total - pts < spf { total - pts } else { spf };
    if pts >= total || spf <= 0 {
        acc
    } else {
        sample_listing(s, cc, spf, total, pts + d, acc.push(audio_entry(pts, d, d * cc * 2, s16le_bytes(s.subrange(pts * cc, (pts + d) * cc)))))
    }
}

/// The checksum listing of interleaved samples at `sample_rate` with `channels` channels.
pub open spec fn spec_audio_listing(s: Seq<i16>, sample_rate: int, channels: int) -> core::result::Result<Seq<FrameHashView>, Failure> {
    match spec_samples_per_frame(sample_rate) {
        Err(e) => Err(e),
        Ok(spf) => if channels == 0 || s.len() % (channels as nat) != 0 {
            Err(Failure::InvalidData)
        } else {
            Ok(sample_listing(s, channels, spf, (s.len() / (channels as nat)) as int, 0, Seq::empty()))
        },
    }
}

/// Samples as two's-complement 16-bit little-endian bytes.
pub fn samples_to_s16le_bytes(samples: &[i16]) -> (r: Vec<u8>)
    ensures
        r@ == s16le_bytes(samples@),
{
    let mut out: Vec<u8> = Vec::new();
    let mut i: usize = 0;
    while i < samples.len()
        invariant
            i <= samples@.len(),
            out@ == s16le_bytes(samples@.take(i as int)),
        decreases samples@.len() - i,
    {
        let u = samples[i] as u16;
        out.push((u % 256) as u8);
        out.push((u / 256) as u8);
        assert(out@ =~= s16le_bytes(samples@.take(i + 1)));
        i = i + 1;
    }
    assert(samples@.take(i as int) =~= samples@);
    out
}

/// The message of the error that listing interleaved samples gives: a rate under ten
/// samples a second first, then no channels, then a sample count that is not a whole
/// number of sample frames.
pub open spec fn spec_audio_listing_text(s: Seq<i16>, sample_rate: int, channels: int) -> Seq<char> {
    if sample_rate / 10 == 0 {
        "sample_rate is too small for WAV packetization"@
    } else if channels == 0 {
        "decoded audio has zero channels"@
    } else {
        "decoded audio sample count is not channel-aligned"@
    }
}

/// The checksum listing of interleaved samples: frames of the samples per frame that the
/// rate gives, each hashed as 16-bit little-endian bytes.
pub fn audio_frame_hashes_from_samples(samples: &[i16], sample_rate: u32, channels: u16) -> (r: Result<Vec<AudioFrameHash>>)
    ensures
        listing_outcome(r) == spec_audio_listing(samples@, sample_rate as int, channels as int),
        r is Err ==> error_text(r->Err_0) == spec_audio_listing_text(samples@, sample_rate as int, channels as int),
{
    let spf = match wav_framemd5_samples_per_frame(sample_rate) { Ok(v) => v, Err(e) => return Err(e) };
    let cc = channels as usize;
    if cc == 0 {
        return Err(invalid_data("decoded audio has zero channels"));
    }
    if samples.len() % cc != 0 {
        return Err(invalid_data("decoded audio sample count is not channel-aligned"));
    }
    let block_align = cc * 2;
    let slen = samples.len();
    let total = slen / cc;
    let mut frames: Vec<AudioFrameHash> = Vec::new();
    let mut pts: usize = 0;
    assert(listing_view(frames@) =~= Seq::<FrameHashView>::empty());
    assert(total * cc == samples@.len()) by (nonlinear_arith)
        requires
            total == samples@.len() / (cc as nat),
            samples@.len() % (cc as nat) == 0,
            cc > 0,
    ;
    while pts < total
        invariant
            slen == samples@.len(),
            cc == channels,
            cc > 0,
            block_align == cc * 2,
            total * cc == samples@.len(),
            spf >= 1,
            pts <= total,
            spec_audio_listing(samples@, sample_rate as int, channels as int) == Ok::<Seq<FrameHashView>, Failure>(
                sample_listing(samples@, cc as int, spf as int, total as int, pts as int, listing_view(frames@))),
        decreases total - pts,
    {
        let remaining = total - pts;
        let d: usize = if remaining < spf as usize { remaining } else { spf as usize };
        assert((pts + d) * cc <= total * cc && pts * cc <= (pts + d) * cc && d * cc * 2 == d * block_align) by (nonlinear_arith)
            requires
                pts + d <= total,
                cc > 0,
                block_align == cc * 2,
        ;
        let start = pts * cc;
        let stop = (pts + d) * cc;
        let payload = samples_to_s16le_bytes(&samples[start..stop]);
        assert((pts + d) * cc - pts * cc == d * cc) by (nonlinear_arith);
        assert(payload@.len() == d * cc * 2);
        let ghost before = frames@;
        frames.push(audio_frame_hash(pts as u64, d as u32, payload.len(), payload.as_slice()));
        assert(listing_view(frames@) =~= listing_view(before).push(audio_entry(pts as int, d as int, d * cc * 2, s16le_bytes(samples@.subrange(pts * cc, (pts + d) * cc)))));
        pts = pts + d;
    }
    Ok(frames)
}

/// The checksum listing of decoded audio, with its rate and channel count.
pub fn compressed_audio_frame_hashes_from(decoded: DecodedAudio) -> (r: Result<AudioFrameHashDocument>)
    ensures
        match spec_audio_listing(decoded.samples@, decoded.sample_rate as int, decoded.channels as int) {
            Ok(l) => r is Ok && listing_view(r->Ok_0.frames@) == l && r->Ok_0.sample_rate == decoded.sample_rate && r->Ok_0.channels == decoded.channels,
            Err(e) => r is Err && failure(r->Err_0) == e
                && error_text(r->Err_0) == spec_audio_listing_text(decoded.samples@, decoded.sample_rate as int, decoded.channels as int),
        },
{
    let frames = match audio_frame_hashes_from_samples(decoded.samples.as_slice(), decoded.sample_rate, decoded.channels) {
        Ok(f) => f,
        Err(e) => return Err(e),
    };
    Ok(AudioFrameHashDocument { sample_rate: decoded.sample_rate, channels: decoded.channels, frames })
}

/// The checksum listing of compressed audio from what its decoder gave: the decoder's
/// error handed on as it is, or the listing of the decoded samples.
pub fn compressed_audio_frame_hashes(decoded: Result<DecodedAudio>) -> (r: Result<AudioFrameHashDocument>)
    ensures
        decoded matches Err(e) ==> (r matches Err(f) && f == e),
        decoded matches Ok(a) ==> match spec_audio_listing(a.samples@, a.sample_rate as int, a.channels as int) {
            Ok(l) => r is Ok && listing_view(r->Ok_0.frames@) == l && r->Ok_0.sample_rate == a.sample_rate && r->Ok_0.channels == a.channels,
            Err(e) => r is Err && failure(r->Err_0) == e
                && error_text(r->Err_0) == spec_audio_listing_text(a.samples@, a.sample_rate as int, a.channels as int),
        },
{
    match decoded {
        Ok(a) => compressed_audio_frame_hashes_from(a),
        Err(e) => Err(e),
    }
}

/// `s` rounded up to a multiple of `f`.
pub open spec fn whole_frames(s: int, f: int) -> int {
    (s + f - 1) / f * f
}

/// `samples` rounded up to whole frames of `frame_size` (none for frames of size zero),
/// saturating at the largest `usize`.
pub fn ceil_to_frame_boundary(samples: usize, frame_size: usize) -> (r: Option<usize>)
    ensures
        frame_size == 0 ==> r is None,
        frame_size > 0 ==> r == Some((if whole_frames(samples as int, frame_size as int) > usize::MAX { usize::MAX as int } else { whole_frames(samples as int, frame_size as int) }) as usize),
{
    if frame_size == 0 {
        return None;
    }
    assert(samples % frame_size != 0 ==> samples / frame_size < usize::MAX) by (nonlinear_arith)
        requires
            frame_size > 0,
    ;
    let frames = samples / frame_size + if samples % frame_size == 0 { 0 } else { 1 };
    assert(frames * frame_size == whole_frames(samples as int, frame_size as int)) by (nonlinear_arith)
        requires
            frame_size > 0,
            frames == samples / frame_size + if samples % frame_size == 0 { 0int } else { 1int },
    ;
    match frames.checked_mul(frame_size) {
        Some(v) => Some(v),
        None => Some(usize::MAX),
    }
}

/// What trimming decoded AAC leaves: one priming frame of 1024 samples a channel dropped
/// from the front when the samples reach the target and that frame, then the samples
/// cut to the target; products and sums saturate.
pub open spec fn aac_trimmed(s: Seq<i16>, channels: int, target_frames: int) -> Seq<i16> {
    let ts = if target_frames * channels > usize::MAX { usize::MAX as int } else { target_frames * channels };
    let fs = 1024 * channels;
    let threshold = if ts + fs > usize::MAX { usize::MAX as int } else { ts + fs };
    let s1 = if s.len() >= threshold { s.subrange(fs, s.len() as int) } else { s };
    if ts < s1.len() { s1.subrange(0, ts) } else { s1 }
}

/// Drops AAC priming and padding so that `target_frames` sample frames remain.
pub fn trim_aac_priming_and_padding(samples: &mut Vec<i16>, channels: u16, target_frames: usize)
    ensures
        final(samples)@ == aac_trimmed(old(samples)@, channels as int, target_frames as int),
{
    let ch = channels as usize;
    let ts = match target_frames.checked_mul(ch) { Some(v) => v, None => usize::MAX };
    let fs = 1024 * ch;
    let threshold = match ts.checked_add(fs) { Some(v) => v, None => usize::MAX };
    if samples.len() >= threshold {
        let rest = samples.split_off(fs);
        *samples = rest;
    }
    if ts < samples.len() {
        samples.truncate(ts);
    }
}

/// The sum of the `n` lacing values at `t`.
pub open spec fn lace_total(b: Seq<u8>, t: int, n: int) -> int
    decreases n,
{
    if n <= 0 { 0 } else { lace_total(b, t, n - 1) + b[t + n - 1] }
}

/// Lacing totals grow with the number of values counted.
pub proof fn lemma_lace_total_mono(b: Seq<u8>, t: int, j: int, n: int)
    requires
        0 <= j <= n,
    ensures
        0 <= lace_total(b, t, j) <= lace_total(b, t, n),
    decreases n,
{
    if j < n {
        lemma_lace_total_mono(b, t, j, n - 1);
    } else if n > 0 {
        lemma_lace_total_mono(b, t, n - 1, n - 1);
    }
}

/// The packets that segments `j..n` of a page complete (table at `t`, data at `dpos`),
/// after `packets`, and the packet left open: a segment shorter than 255 bytes ends one.
pub open spec fn ogg_lace(b: Seq<u8>, t: int, n: int, j: int, dpos: int, packets: Seq<Seq<u8>>, partial: Seq<u8>) -> (Seq<Seq<u8>>, Seq<u8>)
    decreases n - j,
{
    if j >= n {
        (packets, partial)
    } else {
        let l = b[t + j] as int;
        let p = partial + b.subrange(dpos, dpos + l);
        if l < 255 {
            ogg_lace(b, t, n, j + 1, dpos + l, packets.push(p), Seq::empty())
        } else {
            ogg_lace(b, t, n, j + 1, dpos + l, packets, p)
        }
    }
}

/// The packets of the Ogg pages from `pos` on, after `packets` and the open `partial`.
pub open spec fn ogg_walk(b: Seq<u8>, pos: int, packets: Seq<Seq<u8>>, partial: Seq<u8>) -> core::result::Result<Seq<Seq<u8>>, Failure>
    decreases (if pos < b.len() { b.len() - pos } else { 0 }),
{
    if pos < 0 || pos >= b.len() {
        if partial.len() > 0 { Err(Failure::InvalidData) } else { Ok(packets) }
    } else if !has_tag(b, pos, seq![0x4fu8, 0x67, 0x67, 0x53]) {
        Err(Failure::InvalidData)
    } else if pos + 27 > b.len() {
        Err(eof(sat(pos + 27), b.len() as int))
    } else {
        let n = b[pos + 26] as int;
        let ds = pos + 27 + n;
        let de = ds + lace_total(b, pos + 27, n);
        if ds > b.len() {
            Err(eof(sat(ds), b.len() as int))
        } else if de > usize::MAX {
            Err(Failure::InvalidData)
        } else if de > b.len() {
            Err(eof(de, b.len() as int))
        } else {
            let r = ogg_lace(b, pos + 27, n, 0, ds, packets, partial);
            proof {
                lemma_lace_total_mono(b, pos + 27, 0, n);
            }
            ogg_walk(b, de, r.0, r.1)
        }
    }
}

/// A list of packets by their bytes.
pub open spec fn packets_view(v: Seq<Vec<u8>>) -> Seq<Seq<u8>> {
    v.map_values(|p: Vec<u8>| p@)
}

/// The packets of an Ogg stream, reassembled from the lacing values of its pages.
pub fn ogg_packets(input: &[u8]) -> (r: Result<Vec<Vec<u8>>>)
    ensures
        match ogg_walk(input@, 0, Seq::empty(), Seq::empty()) {
            Ok(p) => r is Ok && packets_view(r->Ok_0@) == p,
            Err(e) => r is Err && failure(r->Err_0) == e,
        },
{
    let len = input.len();
    let mut packets: Vec<Vec<u8>> = Vec::new();
    let mut packet: Vec<u8> = Vec::new();
    let mut pos: usize = 0;
    assert(packets_view(packets@) =~= Seq::<Seq<u8>>::empty());
    while pos < len
        invariant
            len == input@.len(),
            pos <= len,
            ogg_walk(input@, 0, Seq::empty(), Seq::empty()) == ogg_walk(input@, pos as int, packets_view(packets@), packet@),
        decreases len - pos,
    {
        if !tag_at(input, pos, &[0x4fu8, 0x67, 0x67, 0x53]) {
            return Err(invalid_data("missing Ogg page capture pattern"));
        }
        if len - pos < 27 {
            return Err(unexpected_eof(sat_add(pos, 27), len));
        }
        let n = input[pos + 26] as usize;
        let table = pos + 27;
        if n > len - table {
            return Err(unexpected_eof(sat_add(table, n), len));
        }
        let ds = table + n;
        let mut total: usize = 0;
        let mut j: usize = 0;
        while j < n
            invariant
                table + n <= len == input@.len(),
                j <= n <= 255,
                total == lace_total(input@, table as int, j as int),
                total <= 255 * j,
            decreases n - j,
        {
            total = total + input[table + j] as usize;
            j = j + 1;
        }
        if total > usize::MAX - ds {
            return Err(invalid_data("Ogg page segment data overflow"));
        }
        let de = ds + total;
        if de > len {
            return Err(unexpected_eof(de, len));
        }
        let ghost p0 = packets_view(packets@);
        let ghost q0 = packet@;
        let mut dpos = ds;
        let mut j: usize = 0;
        while j < n
            invariant
                table + n <= len == input@.len(),
                ds == table + n,
                de == ds + lace_total(input@, table as int, n as int),
                de <= len,
                j <= n <= 255,
                dpos == ds + lace_total(input@, table as int, j as int),
                ogg_lace(input@, table as int, n as int, 0, ds as int, p0, q0) == ogg_lace(input@, table as int, n as int, j as int, dpos as int, packets_view(packets@), packet@),
            decreases n - j,
        {
            proof {
                lemma_lace_total_mono(input@, table as int, j + 1, n as int);
            }
            let l = input[table + j] as usize;
            append_bytes(&mut packet, &input[dpos..dpos + l]);
            dpos = dpos + l;
            if l < 255 {
                let ghost before = packets@;
                packets.push(packet);
                packet = Vec::new();
                assert(packets_view(packets@) =~= packets_view(before).push(packets@[packets@.len() - 1]@));
            }
            j = j + 1;
        }
        pos = de;
    }
    if packet.len() > 0 {
        return Err(invalid_data("Ogg stream ended with an incomplete packet"));
    }
    Ok(packets)
}

/// Whether packet `p` is a Vorbis identification header long enough to give block sizes.
pub open spec fn vorbis_ident(p: Seq<u8>) -> bool {
    has_tag(p, 0, seq![0x01u8, 0x76, 0x6f, 0x72, 0x62, 0x69, 0x73]) && p.len() >= 30
}

/// The packet left open by segments `j..n` of a page (table at `t`, data at `dpos`) and
/// the initial discard: half the short block size of the first identification header
/// that a completed packet holds.
pub open spec fn vorbis_lace(b: Seq<u8>, t: int, n: int, j: int, dpos: int, partial: Seq<u8>, discard: Option<int>) -> (Seq<u8>, Option<int>)
    decreases n - j,
{
    if j >= n {
        (partial, discard)
    } else {
        let l = b[t + j] as int;
        let p = partial + b.subrange(dpos, dpos + l);
        let d = if discard is None && vorbis_ident(p) { Some(two_pow((p[28] % 16) as nat) / 2) } else { discard };
        if l < 255 {
            vorbis_lace(b, t, n, j + 1, dpos + l, Seq::empty(), d)
        } else {
            vorbis_lace(b, t, n, j + 1, dpos + l, p, discard)
        }
    }
}

/// The initial discard and the last granule position (other than all ones) of the Ogg
/// pages from `pos` on.
pub open spec fn vorbis_walk(b: Seq<u8>, pos: int, partial: Seq<u8>, discard: Option<int>, last: Option<int>) -> core::result::Result<(Option<int>, Option<int>), Failure>
    decreases (if pos < b.len() { b.len() - pos } else { 0 }),
{
    if pos < 0 || pos >= b.len() {
        Ok((discard, last))
    } else if !has_tag(b, pos, seq![0x4fu8, 0x67, 0x67, 0x53]) {
        Err(Failure::InvalidData)
    } else if pos + 27 > b.len() {
        Err(eof(sat(pos + 27), b.len() as int))
    } else {
        let granule = u64_le(b, pos + 6);
        let last2 = if granule != u64::MAX { Some(granule) } else { last };
        let n = b[pos + 26] as int;
        let ds = pos + 27 + n;
        let de = ds + lace_total(b, pos + 27, n);
        if ds > b.len() {
            Err(eof(sat(ds), b.len() as int))
        } else if de > usize::MAX {
            Err(Failure::InvalidData)
        } else if de > b.len() {
            Err(eof(de, b.len() as int))
        } else {
            let r = vorbis_lace(b, pos + 27, n, 0, ds, partial, discard);
            proof {
                lemma_lace_total_mono(b, pos + 27, 0, n);
            }
            vorbis_walk(b, de, r.0, r.1, last2)
        }
    }
}

/// The sample frames a Vorbis stream puts out: its last granule position less the
/// initial discard (not below zero); none without either.
pub open spec fn spec_vorbis_output_frames(b: Seq<u8>) -> core::result::Result<Option<int>, Failure> {
    match vorbis_walk(b, 0, Seq::empty(), None, None) {
        Err(e) => Err(e),
        Ok(w) => match (w.1, w.0) {
            (Some(last), Some(discard)) => {
                let target = if last > discard { last - discard } else { 0 };
                if target > usize::MAX { Err(Failure::Unsupported) } else { Ok(Some(target)) }
            },
            _ => Ok(None),
        },
    }
}

/// Two to the power `k`.
fn pow2(k: usize) -> (r: usize)
    requires
        k < 16,
    ensures
        r == two_pow(k as nat),
{
    let mut r: usize = 1;
    let mut i: usize = 0;
    while i < k
        invariant
            i <= k < 16,
            r == two_pow(i as nat),
            r <= 0x8000,
        decreases k - i,
    {
        proof {
            crate::bits::lemma_two_pow_mono((i + 1) as nat, 15);
            reveal_with_fuel(two_pow, 16);
        }
        r = r * 2;
        i = i + 1;
    }
    r
}

/// The sample frames a Vorbis stream in Ogg puts out, from its last granule position and
/// the initial discard that its identification header gives.
pub fn vorbis_output_frames(input: &[u8]) -> (r: Result<Option<usize>>)
    ensures
        match spec_vorbis_output_frames(input@) {
            Ok(Some(v)) => r == Ok::<Option<usize>, RmpegError>(Some(v as usize)),
            Ok(None) => r == Ok::<Option<usize>, RmpegError>(None),
            Err(e) => r is Err && failure(r->Err_0) == e,
        },
{
    let len = input.len();
    let mut packet: Vec<u8> = Vec::new();
    let mut discard: Option<usize> = None;
    let mut last: Option<u64> = None;
    let mut pos: usize = 0;
    while pos < len
        invariant
            len == input@.len(),
            pos <= len,
            vorbis_walk(input@, 0, Seq::empty(), None, None) == vorbis_walk(input@, pos as int, packet@,
                match discard { Some(d) => Some(d as int), None => None }, match last { Some(g) => Some(g as int), None => None }),
        decreases len - pos,
    {
        if !tag_at(input, pos, &[0x4fu8, 0x67, 0x67, 0x53]) {
            return Err(invalid_data("missing Ogg page capture pattern"));
        }
        if len - pos < 27 {
            return Err(unexpected_eof(sat_add(pos, 27), len));
        }
        let granule = le64(input, pos + 6);
        if granule != u64::MAX {
            last = Some(granule);
        }
        let n = input[pos + 26] as usize;
        let table = pos + 27;
        if n > len - table {
            return Err(unexpected_eof(sat_add(table, n), len));
        }
        let ds = table + n;
        let mut total: usize = 0;
        let mut j: usize = 0;
        while j < n
            invariant
                table + n <= len == input@.len(),
                j <= n <= 255,
                total == lace_total(input@, table as int, j as int),
                total <= 255 * j,
            decreases n - j,
        {
            total = total + input[table + j] as usize;
            j = j + 1;
        }
        if total > usize::MAX - ds {
            return Err(invalid_data("Ogg page segment data overflow"));
        }
        let de = ds + total;
        if de > len {
            return Err(unexpected_eof(de, len));
        }
        let ghost q0 = packet@;
        let ghost d0 = match discard { Some(d) => Some(d as int), None => None::<int> };
        let mut dpos = ds;
        let mut j: usize = 0;
        while j < n
            invariant
                table + n <= len == input@.len(),
                ds == table + n,
                de == ds + lace_total(input@, table as int, n as int),
                de <= len,
                j <= n <= 255,
                dpos == ds + lace_total(input@, table as int, j as int),
                vorbis_lace(input@, table as int, n as int, 0, ds as int, q0, d0) == vorbis_lace(input@, table as int, n as int, j as int, dpos as int, packet@,
                    match discard { Some(d) => Some(d as int), None => None }),
            decreases n - j,
        {
            proof {
                lemma_lace_total_mono(input@, table as int, j + 1, n as int);
            }
            let l = input[table + j] as usize;
            append_bytes(&mut packet, &input[dpos..dpos + l]);
            dpos = dpos + l;
            if l < 255 {
                if discard.is_none() && packet.len() >= 30 && tag_at(packet.as_slice(), 0, &[0x01u8, 0x76, 0x6f, 0x72, 0x62, 0x69, 0x73]) {
                    let block = pow2((packet[28] % 16) as usize);
                    discard = Some(block / 2);
                }
                packet = Vec::new();
            }
            j = j + 1;
        }
        pos = de;
    }
    let last = match last { Some(g) => g, None => return Ok(None) };
    let discard = match discard { Some(d) => d, None => return Ok(None) };
    let target = if last > discard as u64 { last - discard as u64 } else { 0 };
    if target > usize::MAX as u64 {
        return Err(unsupported("Vorbis output is too large"));
    }
    Ok(Some(target as usize))
}

/// Whether `extension` is `word` (lower-case) in any ASCII case.
pub open spec fn extension_is(extension: Option<&str>, word: Seq<u8>) -> bool {
    match extension {
        Some(e) => eq_ignore_case(e.spec_bytes(), word),
        None => false,
    }
}

/// Whether `extension` is `word` (lower-case) in any ASCII case.
pub fn has_extension(extension: Option<&str>, word: &[u8]) -> (r: bool)
    ensures
        r == extension_is(extension, word@),
{
    match extension {
        Some(e) => {
            let b = e.as_bytes();
            assert(b@.subrange(0, b@.len() as int) =~= b@);
            span_eq_ignore_case(b, 0, b.len(), word)
        },
        None => false,
    }
}

/// What trimming decoded Ogg Vorbis leaves: the samples cut to the frames the stream
/// puts out, when the extension is `ogg` and those frames are known.
pub open spec fn vorbis_trimmed(input: Seq<u8>, extension: Option<&str>, channels: int, s: Seq<i16>) -> Seq<i16> {
    match spec_vorbis_output_frames(input) {
        Ok(Some(frames)) => {
            let ts = if frames * channels > usize::MAX { usize::MAX as int } else { frames * channels };
            if extension_is(extension, seq![0x6fu8, 0x67, 0x67]) && s.len() > ts { s.subrange(0, ts) } else { s }
        },
        _ => s,
    }
}

/// Cuts decoded Ogg Vorbis samples to the frames the stream puts out.
pub fn trim_ogg_vorbis_output(input: &[u8], extension: Option<&str>, channels: u16, samples: &mut Vec<i16>)
    ensures
        final(samples)@ == vorbis_trimmed(input@, extension, channels as int, old(samples)@),
{
    if !has_extension(extension, &[0x6fu8, 0x67, 0x67]) {
        return;
    }
    let frames = match vorbis_output_frames(input) {
        Ok(Some(f)) => f,
        _ => return,
    };
    let ts = match frames.checked_mul(channels as usize) { Some(v) => v, None => usize::MAX };
    if samples.len() > ts {
        samples.truncate(ts);
    }
}

/// A channel count as the 16-bit count that decoded audio carries.
pub fn channel_count(channels: usize) -> (r: Result<u16>)
    ensures
        channels <= 0xffff ==> r == Ok::<u16, RmpegError>(channels as u16),
        channels > 0xffff ==> r is Err && failure(r->Err_0) == Failure::Unsupported,
{
    if channels > 0xffff {
        let mut m = with_number("audio channel count ", channels as u64);
        m.append(" is too large");
        return Err(RmpegError::Unsupported(m));
    }
    Ok(channels as u16)
}

/// `OpusHead` in ASCII: the tag that opens an Opus identification header.
pub open spec fn opus_head_tag() -> Seq<u8> {
    seq![0x4fu8, 0x70, 0x75, 0x73, 0x48, 0x65, 0x61, 0x64]
}

/// `OpusTags` in ASCII: the tag that opens an Opus comment header.
pub open spec fn opus_tags_tag() -> Seq<u8> {
    seq![0x4fu8, 0x70, 0x75, 0x73, 0x54, 0x61, 0x67, 0x73]
}

/// Whether compressed input is taken as Ogg Opus: its extension is `ogg` in any case
/// and `OpusHead` occurs somewhere in it.
pub fn is_ogg_opus(input: &[u8], extension: Option<&str>) -> (r: bool)
    ensures
        r == (extension_is(extension, seq![0x6fu8, 0x67, 0x67]) && first_tag(input@, opus_head_tag()) is Some),
{
    if !has_extension(extension, &[0x6fu8, 0x67, 0x67]) {
        return false;
    }
    let tag: [u8; 8] = [0x4f, 0x70, 0x75, 0x73, 0x48, 0x65, 0x61, 0x64];
    assert(tag@ =~= opus_head_tag());
    find_tag(input, &tag).is_some()
}

/// Whether an Ogg Opus packet carries audio: it opens with neither `OpusHead` nor `OpusTags`.
pub fn is_opus_audio_packet(packet: &[u8]) -> (r: bool)
    ensures
        r == !(has_tag(packet@, 0, opus_head_tag()) || has_tag(packet@, 0, opus_tags_tag())),
{
    let head: [u8; 8] = [0x4f, 0x70, 0x75, 0x73, 0x48, 0x65, 0x61, 0x64];
    let tags: [u8; 8] = [0x4f, 0x70, 0x75, 0x73, 0x54, 0x61, 0x67, 0x73];
    assert(head@ =~= opus_head_tag());
    assert(tags@ =~= opus_tags_tag());
    !(tag_at(packet, 0, &head) || tag_at(packet, 0, &tags))
}

/// What an Opus identification header gives the decoder: the channel count and the
/// number of sample frames to skip at the start.
#[derive(Debug, Clone, Copy, PartialEq, Eq)]
pub struct OpusHead {
    pub channels: u8,
    pub pre_skip: usize,
}

/// Packet `i` is the first one that opens with `OpusHead`.
pub open spec fn is_first_opus_head(ps: Seq<Seq<u8>>, i: int) -> bool {
    &&& 0 <= i < ps.len()
    &&& has_tag(ps[i], 0, opus_head_tag())
    &&& forall|j: int| 0 <= j < i ==> !has_tag(#[trigger] ps[j], 0, opus_head_tag())
}

/// The identification header of an Ogg Opus stream, from the first packet that opens
/// with `OpusHead`: channel count at byte 9 (not zero) and little-endian pre-skip at
/// bytes 10 and 11, in a header of at least 19 bytes.
pub open spec fn spec_opus_head(ps: Seq<Seq<u8>>) -> core::result::Result<OpusHead, Failure> {
    if exists|i: int| is_first_opus_head(ps, i) {
        let h = ps[choose|i: int| is_first_opus_head(ps, i)];
        if h.len() < 19 {
            Err(Failure::InvalidData)
        } else if h[9] == 0 {
            Err(Failure::InvalidData)
        } else {
            Ok(OpusHead { channels: h[9], pre_skip: (h[10] + 256 * h[11]) as usize })
        }
    } else {
        Err(Failure::InvalidData)
    }
}

/// Reads the identification header of an Ogg Opus stream from its packets.
pub fn opus_head(packets: &[Vec<u8>]) -> (r: Result<OpusHead>)
    ensures
        outcome(r) == spec_opus_head(packets_view(packets@)),
{
    let ghost ps = packets_view(packets@);
    let head: [u8; 8] = [0x4f, 0x70, 0x75, 0x73, 0x48, 0x65, 0x61, 0x64];
    assert(head@ =~= opus_head_tag());
    let mut i: usize = 0;
    while i < packets.len()
        invariant
            ps == packets_view(packets@),
            head@ == opus_head_tag(),
            i <= packets.len(),
            forall|j: int| 0 <= j < i ==> !has_tag(#[trigger] ps[j], 0, opus_head_tag()),
        decreases packets.len() - i,
    {
        let p = packets[i].as_slice();
        assert(p@ == ps[i as int]);
        if tag_at(p, 0, &head) {
            assert(is_first_opus_head(ps, i as int));
            assert forall|k: int| #[trigger] is_first_opus_head(ps, k) implies k == i by {
                if k < i {
                    assert(!has_tag(ps[k], 0, opus_head_tag()));
                } else if k > i {
                    assert(!has_tag(ps[i as int], 0, opus_head_tag()));
                }
            }
            if p.len() < 19 {
                return Err(invalid_data("Ogg OpusHead packet is truncated"));
            }
            let channels = p[9];
            if channels == 0 {
                return Err(invalid_data("Ogg Opus stream has zero channels"));
            }
            let pre_skip = (p[10] as usize) + 256 * (p[11] as usize);
            return Ok(OpusHead { channels, pre_skip });
        }
        i = i + 1;
    }
    assert forall|k: int| !is_first_opus_head(ps, k) by {
        if 0 <= k < ps.len() {
            assert(!has_tag(ps[k], 0, opus_head_tag()));
        }
    }
    Err(invalid_data("Ogg Opus stream has no OpusHead"))
}

/// What trimming decoded Opus leaves: the pre-skip sample frames dropped from the front
/// (none with zero channels), then, where the stream's length in sample frames is known,
/// the samples cut to that length less the pre-skip; products saturate, differences stop
/// at zero.
pub open spec fn opus_trimmed(s: Seq<i16>, channels: int, pre_skip: int, duration: Option<int>) -> Seq<i16> {
    if channels == 0 {
        s
    } else {
        let skip_raw = if pre_skip * channels > usize::MAX { usize::MAX as int } else { pre_skip * channels };
        let skip = if skip_raw < s.len() { skip_raw } else { s.len() as int };
        let s1 = s.subrange(skip, s.len() as int);
        match duration {
            Some(d) => {
                let frames = if d > pre_skip { d - pre_skip } else { 0 };
                let ts = if frames * channels > usize::MAX { usize::MAX as int } else { frames * channels };
                if s1.len() > ts { s1.subrange(0, ts) } else { s1 }
            },
            None => s1,
        }
    }
}

/// Drops the pre-skip from decoded Opus samples and cuts them to the stream's length in
/// sample frames, where that is known.
pub fn trim_opus_samples(samples: &mut Vec<i16>, channels: u8, pre_skip: usize, duration_samples: Option<usize>)
    ensures
        final(samples)@ == opus_trimmed(old(samples)@, channels as int, pre_skip as int, match duration_samples { Some(d) => Some(d as int), None => None }),
{
    let ch = channels as usize;
    if ch == 0 {
        return;
    }
    let skip_raw = match pre_skip.checked_mul(ch) { Some(v) => v, None => usize::MAX };
    let skip = if skip_raw < samples.len() { skip_raw } else { samples.len() };
    let rest = samples.split_off(skip);
    *samples = rest;
    if let Some(d) = duration_samples {
        let frames = if d > pre_skip { d - pre_skip } else { 0 };
        let ts = match frames.checked_mul(ch) { Some(v) => v, None => usize::MAX };
        if samples.len() > ts {
            samples.truncate(ts);
        }
    }
}

/// The rate and channel count that decoded audio has shown so far (none before the
/// first decoded packet).
#[derive(Debug, Clone, Copy, PartialEq, Eq)]
pub struct DecodedShape {
    pub sample_rate: Option<u32>,
    pub channels: Option<u16>,
}

/// The shape of decoded audio before any packet.
pub fn empty_shape() -> (r: DecodedShape)
    ensures
        r.sample_rate is None,
        r.channels is None,
{
    DecodedShape { sample_rate: None, channels: None }
}

/// The shape after a decoded packet of `rate` and `channels`: a channel count over 65535
/// is unsupported, and so is a packet whose rate, or else whose channel count, differs
/// from what came before; otherwise the first packet fixes the shape.
pub open spec fn spec_merge_shape(shape: DecodedShape, rate: int, channels: int) -> core::result::Result<DecodedShape, Failure> {
    if channels > 0xffff {
        Err(Failure::Unsupported)
    } else if shape.sample_rate is Some && shape.sample_rate->0 != rate {
        Err(Failure::Unsupported)
    } else if shape.channels is Some && shape.channels->0 != channels {
        Err(Failure::Unsupported)
    } else {
        Ok(DecodedShape {
            sample_rate: Some(rate as u32),
            channels: Some(channels as u16),
        })
    }
}

/// Checks a decoded packet's rate and channel count against the audio decoded before it.
pub fn merge_packet_shape(shape: DecodedShape, rate: u32, channels: usize) -> (r: Result<DecodedShape>)
    ensures
        outcome(r) == spec_merge_shape(shape, rate as int, channels as int),
{
    let packet_channels = match channel_count(channels) {
        Ok(c) => c,
        Err(e) => return Err(e),
    };
    if let Some(existing) = shape.sample_rate {
        if existing != rate {
            return Err(unsupported("audio sample-rate changes are not supported"));
        }
    }
    if let Some(existing) = shape.channels {
        if existing != packet_channels {
            return Err(unsupported("audio channel-count changes are not supported"));
        }
    }
    Ok(DecodedShape { sample_rate: Some(rate), channels: Some(packet_channels) })
}

/// The rate and channel count of decoded audio once every packet is in: invalid data
/// where no packet was decoded.
pub fn finish_shape(shape: DecodedShape) -> (r: Result<(u32, u16)>)
    ensures
        match (shape.sample_rate, shape.channels) {
            (Some(rate), Some(ch)) => r == Ok::<(u32, u16), RmpegError>((rate, ch)),
            _ => r is Err && failure(r->Err_0) == Failure::InvalidData,
        },
{
    let rate = match shape.sample_rate {
        Some(v) => v,
        None => return Err(invalid_data("audio stream did not produce decoded frames")),
    };
    let channels = match shape.channels {
        Some(v) => v,
        None => return Err(invalid_data("audio stream did not report channel count")),
    };
    Ok((rate, channels))
}

/// The checksum frames of interleaved samples tile them: after the lines already
/// listed, frame `k` starts `spf` sample frames after the one before it, each frame holds
/// `spf` sample frames but the last, which ends exactly at the end of the samples, and
/// each frame's size is its duration times two bytes per channel.
pub proof fn law_sample_frames_tile(s: Seq<i16>, cc: int, spf: int, total: int, pts: int, acc: Seq<FrameHashView>)
    requires
        0 <= pts <= total,
        spf > 0,
        cc > 0,
    ensures
        sample_listing(s, cc, spf, total, pts, acc).len() >= acc.len(),
        sample_listing(s, cc, spf, total, pts, acc).subrange(0, acc.len() as int) == acc,
        forall|k: int| acc.len() <= k < sample_listing(s, cc, spf, total, pts, acc).len() ==> {
            let e = #[trigger] sample_listing(s, cc, spf, total, pts, acc)[k];
            &&& e.pts == pts + (k - acc.len()) * spf
            &&& e.duration == (if total - e.pts < spf { total - e.pts } else { spf })
            &&& e.size == e.duration * cc * 2
        },
        sample_listing(s, cc, spf, total, pts, acc).len() > acc.len() ==> {
            let r = sample_listing(s, cc, spf, total, pts, acc);
            r[r.len() - 1].pts + r[r.len() - 1].duration == total
        },
        sample_listing(s, cc, spf, total, pts, acc).len() == acc.len() <==> pts == total,
    decreases total - pts,
{
    let r = sample_listing(s, cc, spf, total, pts, acc);
    if pts >= total {
        assert(r.subrange(0, acc.len() as int) =~= acc);
    } else {
        let d = if total - pts < spf { total - pts } else { spf };
        let e = audio_entry(pts, d, d * cc * 2, s16le_bytes(s.subrange(pts * cc, (pts + d) * cc)));
        let acc2 = acc.push(e);
        law_sample_frames_tile(s, cc, spf, total, pts + d, acc2);
        assert(r == sample_listing(s, cc, spf, total, pts + d, acc2));
        assert(r.subrange(0, acc2.len() as int) == acc2);
        assert(r.subrange(0, acc.len() as int) =~= acc2.subrange(0, acc.len() as int));
        assert(acc2.subrange(0, acc.len() as int) =~= acc);
        assert(r[acc.len() as int] == acc2[acc.len() as int]);
        assert forall|k: int| acc.len() <= k < r.len() implies {
            let e2 = #[trigger] r[k];
            &&& e2.pts == pts + (k - acc.len()) * spf
            &&& e2.duration == (if total - e2.pts < spf { total - e2.pts } else { spf })
            &&& e2.size == e2.duration * cc * 2
        } by {
            let r2 = sample_listing(s, cc, spf, total, pts + d, acc2);
            assert(r2[k] == r[k]);
            if k == acc.len() {
                assert(r[k] == e);
                assert((k - acc.len()) * spf == 0) by (nonlinear_arith)
                    requires
                        k == acc.len(),
                ;
            } else {
                assert(r2[k].pts == pts + d + (k - acc2.len()) * spf);
                assert(pts + d < total);
                assert(d == spf);
                assert((k - acc2.len()) * spf + spf == (k - acc.len()) * spf) by (nonlinear_arith)
                    requires
                        acc2.len() == acc.len() + 1,
                ;
            }
        }
    }
}

/// Rounding up to whole frames gives a multiple of the frame size that is at least the
/// count and less than one frame above it.
pub proof fn law_whole_frames(samples: int, frame_size: int)
    requires
        samples >= 0,
        frame_size > 0,
    ensures
        whole_frames(samples, frame_size) % frame_size == 0,
        samples <= whole_frames(samples, frame_size) < samples + frame_size,
{
    let q = (samples + frame_size - 1) / frame_size;
    let r = (samples + frame_size - 1) % frame_size;
    vstd::arithmetic::div_mod::lemma_fundamental_div_mod(samples + frame_size - 1, frame_size);
    vstd::arithmetic::div_mod::lemma_mod_multiples_basic(q, frame_size);
    assert(q * frame_size == frame_size * q) by (nonlinear_arith);
}

} // verus!
