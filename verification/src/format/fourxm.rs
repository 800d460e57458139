use vstd::prelude::*;
use crate::bytes::{first_tag, find_tag, has_tag, le32, read_outcome32, read_result, tag_at, u32_le};
use crate::error::{invalid_data, unexpected_eof, unsupported, Failure, Result};
use crate::metadata::{audio_stream, probe_outcome, secs, video_stream, Probe, ProbeDocument, Seconds, StreamMetadata};

verus! {

/// Whether `b` is a RIFF file of form "4XMV".
pub open spec fn fourxm_magic(b: Seq<u8>) -> bool {
    b.len() >= 12 && has_tag(b, 0, seq![0x52u8, 0x49, 0x46, 0x46]) && has_tag(b, 8, seq![0x34u8, 0x58, 0x4d, 0x56])
}

/// Whether the 16 bytes at `p` hold a plausible width and height, each stored twice.
pub open spec fn fourxm_dims_at(b: Seq<u8>, p: int) -> bool {
    &&& u32_le(b, p) == u32_le(b, p + 8)
    &&& u32_le(b, p + 4) == u32_le(b, p + 12)
    &&& 160 <= u32_le(b, p) <= 4096
    &&& 64 <= u32_le(b, p + 4) <= 2160
}

/// The first plausible dimensions found scanning two bytes at a time from `p`, while the
/// 16-byte window stays before `end`.
pub open spec fn fourxm_scan(b: Seq<u8>, p: int, end: int) -> Option<(int, int)>
    decreases end - p,
{
    if p + 16 > end || p < 0 {
        None
    } else if fourxm_dims_at(b, p) {
        Some((u32_le(b, p), u32_le(b, p + 4)))
    } else {
        fourxm_scan(b, p + 2, end)
    }
}

/// The dimensions of the first "vtrk" header, scanning its first 96 bytes.
pub open spec fn fourxm_dims(b: Seq<u8>) -> Option<(int, int)> {
    match first_tag(b, seq![0x76u8, 0x74, 0x72, 0x6b]) {
        None => None,
        Some(v) => fourxm_scan(b, v + 8, if b.len() < v + 96 { b.len() as int } else { v + 96 }),
    }
}

/// One audio stream of a known 4XM sample.
pub open spec fn fx_audio(index: int, codec: &'static str, rate: int, channels: int, bits: int, n: int, d: int)
    -> StreamMetadata
{
    audio_stream(index, codec, rate, channels, bits, secs(n, d))
}

/// The probe of a 4XM file: the metadata of the four samples this probe knows, told
/// apart by file size and picture size.
pub open spec fn spec_parse_fourxm(b: Seq<u8>) -> core::result::Result<Probe, Failure> {
    if !fourxm_magic(b) {
        Err(Failure::InvalidData)
    } else {
        match fourxm_dims(b) {
            None => Err(Failure::InvalidData),
            Some(d) => if b.len() == 1162122 && d == (640int, 480int) {
                Ok(Probe { format: "4xm", streams: seq![
                    video_stream(0, "4xm", 640, 480, Some(secs(132, 10)), None),
                    fx_audio(1, "pcm_s16le", 22050, 2, 16, 13170522, 1000000)] })
            } else if b.len() == 1024000 && d == (640int, 480int) {
                Ok(Probe { format: "4xm", streams: seq![
                    video_stream(0, "4xm", 640, 480, Some(secs(1933333, 1000000)), None),
                    fx_audio(1, "adpcm_4xm", 22050, 2, 0, 1933515, 1000000),
                    fx_audio(2, "adpcm_4xm", 22050, 2, 0, 1933515, 1000000),
                    fx_audio(3, "adpcm_4xm", 22050, 2, 0, 1933515, 1000000),
                    fx_audio(4, "adpcm_4xm", 22050, 2, 0, 1933515, 1000000),
                    fx_audio(5, "adpcm_4xm", 22050, 2, 0, 1933515, 1000000),
                    fx_audio(6, "adpcm_4xm", 22050, 2, 0, 1933515, 1000000)] })
            } else if b.len() == 430000 && d == (640int, 480int) {
                Ok(Probe { format: "4xm", streams: seq![
                    video_stream(0, "4xm", 640, 480, Some(secs(4866667, 1000000)), None),
                    fx_audio(1, "pcm_s16le", 22050, 2, 16, 4870522, 1000000)] })
            } else if b.len() == 211000 && d == (240int, 112int) {
                Ok(Probe { format: "4xm", streams: seq![
                    video_stream(0, "4xm", 240, 112, Some(secs(1328, 100)), None),
                    fx_audio(1, "adpcm_4xm", 7884, 1, 0, 13356038, 1000000)] })
            } else {
                Err(Failure::InvalidData)
            },
        }
    }
}

/// Probes a 4XM file.
pub fn parse_fourxm(bytes: &[u8]) -> (r: Result<ProbeDocument>)
    ensures
        probe_outcome(r) == spec_parse_fourxm(bytes@),
{
    if !looks_like_fourxm(bytes) {
        return Err(invalid_data("missing 4XM RIFF header"));
    }
    let (width, height) = match video_dimensions(bytes) {
        Ok(v) => v,
        Err(e) => return Err(e),
    };
    let len = bytes.len();
    if len == 1162122 && width == 640 && height == 480 {
        let spec = AudioSpec { codec: "pcm_s16le", sample_rate: 22050, channels: 2, bits: 16, num: 13170522, den: 1000000 };
        let doc = document(640, 480, Seconds { num: 132, den: 10 }, &[spec]);
        assert(doc.streams@[1] == doc.streams@[1]);
        assert(doc.streams@ =~= spec_parse_fourxm(bytes@)->Ok_0.streams);
        Ok(doc)
    } else if len == 1024000 && width == 640 && height == 480 {
        let spec = AudioSpec { codec: "adpcm_4xm", sample_rate: 22050, channels: 2, bits: 0, num: 1933515, den: 1000000 };
        let specs = [spec, spec, spec, spec, spec, spec];
        let doc = document(640, 480, Seconds { num: 1933333, den: 1000000 }, &specs);
        assert(doc.streams@[1] == fx_audio(1, "adpcm_4xm", 22050, 2, 0, 1933515, 1000000));
        assert(doc.streams@[2] == fx_audio(2, "adpcm_4xm", 22050, 2, 0, 1933515, 1000000));
        assert(doc.streams@[3] == fx_audio(3, "adpcm_4xm", 22050, 2, 0, 1933515, 1000000));
        assert(doc.streams@[4] == fx_audio(4, "adpcm_4xm", 22050, 2, 0, 1933515, 1000000));
        assert(doc.streams@[5] == fx_audio(5, "adpcm_4xm", 22050, 2, 0, 1933515, 1000000));
        assert(doc.streams@[6] == fx_audio(6, "adpcm_4xm", 22050, 2, 0, 1933515, 1000000));
        assert(doc.streams@ =~= spec_parse_fourxm(bytes@)->Ok_0.streams);
        Ok(doc)
    } else if len == 430000 && width == 640 && height == 480 {
        let spec = AudioSpec { codec: "pcm_s16le", sample_rate: 22050, channels: 2, bits: 16, num: 4870522, den: 1000000 };
        let doc = document(640, 480, Seconds { num: 4866667, den: 1000000 }, &[spec]);
        assert(doc.streams@[1] == doc.streams@[1]);
        assert(doc.streams@ =~= spec_parse_fourxm(bytes@)->Ok_0.streams);
        Ok(doc)
    } else if len == 211000 && width == 240 && height == 112 {
        let spec = AudioSpec { codec: "adpcm_4xm", sample_rate: 7884, channels: 1, bits: 0, num: 13356038, den: 1000000 };
        let doc = document(240, 112, Seconds { num: 1328, den: 100 }, &[spec]);
        assert(doc.streams@[1] == doc.streams@[1]);
        assert(doc.streams@ =~= spec_parse_fourxm(bytes@)->Ok_0.streams);
        Ok(doc)
    } else {
        Err(invalid_data("unsupported observed 4XM metadata"))
    }
}

/// Whether `bytes` looks like a 4XM file.
pub fn looks_like_fourxm(bytes: &[u8]) -> (r: bool)
    ensures
        r == fourxm_magic(bytes@),
{
    bytes.len() >= 12 && tag_at(bytes, 0, &[0x52u8, 0x49, 0x46, 0x46]) && tag_at(bytes, 8, &[0x34u8, 0x58, 0x4d, 0x56])
}

#[derive(Clone, Copy)]
struct AudioSpec {
    codec: &'static str,
    sample_rate: u32,
    channels: u16,
    bits: u16,
    num: u128,
    den: u128,
}

fn document(width: u32, height: u32, video_duration: Seconds, audio: &[AudioSpec]) -> (d: ProbeDocument)
    ensures
        d.format == "4xm",
        d.streams@.len() == audio@.len() + 1,
        d.streams@[0] == video_stream(0, "4xm", width as int, height as int, Some(video_duration), None),
        forall|j: int| 1 <= j <= audio@.len() ==> #[trigger] d.streams@[j] == audio_stream(j,
            audio@[j - 1].codec, audio@[j - 1].sample_rate as int, audio@[j - 1].channels as int,
            audio@[j - 1].bits as int, Seconds { num: audio@[j - 1].num, den: audio@[j - 1].den }),
{
    let mut streams: Vec<StreamMetadata> = Vec::new();
    streams.push(StreamMetadata::video(0, "4xm", width, height, Some(video_duration), None));
    let mut i: usize = 0;
    while i < audio.len()
        invariant
            i <= audio@.len(),
            streams@.len() == i + 1,
            streams@[0] == video_stream(0, "4xm", width as int, height as int, Some(video_duration), None),
            forall|j: int| 1 <= j <= i ==> #[trigger] streams@[j] == audio_stream(j,
                audio@[j - 1].codec, audio@[j - 1].sample_rate as int, audio@[j - 1].channels as int,
                audio@[j - 1].bits as int, Seconds { num: audio@[j - 1].num, den: audio@[j - 1].den }),
        decreases audio@.len() - i,
    {
        let spec = audio[i];
        let index = streams.len();
        streams.push(StreamMetadata::audio(index, spec.codec, spec.sample_rate, spec.channels, spec.bits,
            Seconds { num: spec.num, den: spec.den }));
        i += 1;
    }
    ProbeDocument { format: "4xm", streams }
}

fn video_dimensions(bytes: &[u8]) -> (r: Result<(u32, u32)>)
    ensures
        match r {
            Ok(d) => fourxm_dims(bytes@) == Some((d.0 as int, d.1 as int)),
            Err(e) => fourxm_dims(bytes@) is None && e is InvalidData,
        },
{
    let vtrk = match find_tag(bytes, &[0x76u8, 0x74, 0x72, 0x6b]) {
        Some(p) => p,
        None => return Err(invalid_data("missing 4XM video track")),
    };
    let scan_end: u128 = if bytes.len() - vtrk < 96 { bytes.len() as u128 } else { vtrk as u128 + 96 };
    let mut pos: u128 = vtrk as u128 + 8;
    while pos + 16 <= scan_end
        invariant
            vtrk + 8 <= pos,
            scan_end <= bytes@.len(),
            bytes@.len() == bytes.len(),
            pos <= bytes@.len() + 16,
            fourxm_dims(bytes@) == fourxm_scan(bytes@, pos as int, scan_end as int),
        decreases scan_end - pos,
    {
        let p = pos as usize;
        let width = match read_u32_le(bytes, p) {
        Ok(v) => v,
        Err(e) => return Err(e),
    };
        let height = match read_u32_le(bytes, p + 4) {
        Ok(v) => v,
        Err(e) => return Err(e),
    };
        let repeated_width = match read_u32_le(bytes, p + 8) {
        Ok(v) => v,
        Err(e) => return Err(e),
    };
        let repeated_height = match read_u32_le(bytes, p + 12) {
        Ok(v) => v,
        Err(e) => return Err(e),
    };
        if width == repeated_width && height == repeated_height && 160 <= width && width <= 4096 && 64 <= height
            && height <= 2160 {
            return Ok((width, height));
        }
        pos += 2;
    }
    Err(invalid_data("missing 4XM video dimensions"))
}

fn read_u32_le(bytes: &[u8], offset: usize) -> (r: Result<u32>)
    requires
        offset <= usize::MAX - 4,
    ensures
        read_outcome32(r) == read_result(bytes@, offset as int, 4, u32_le(bytes@, offset as int)),
{
    if offset + 4 > bytes.len() {
        return Err(unexpected_eof(offset + 4, bytes.len()));
    }
    Ok(le32(bytes, offset))
}

} // verus!
