use vstd::prelude::*;
use crate::bytes::{be16, be32, sat, sat_add, has_tag, read_outcome32, read_result, tag_at, u16_be, u32_be};
use crate::error::{eof, failure, invalid_data, unexpected_eof, Failure, Result};
use crate::metadata::{audio_stream, probe_outcome, secs, video_stream, Probe, ProbeDocument, Seconds, StreamMetadata};

verus! {

/// An embedded picture: its codec and dimensions.
#[derive(Clone, Copy)]
pub struct FlacPicture {
    pub codec_name: &'static str,
    pub width: u32,
    pub height: u32,
}

/// Whether `m` is a JPEG start-of-frame marker (0xc0 to 0xcf, except 0xc4, 0xc8 and 0xcc).
pub open spec fn jpeg_is_sof(m: u8) -> bool {
    0xc0 <= m <= 0xcf && m != 0xc4 && m != 0xc8 && m != 0xcc
}

/// The (width, height) of the first start-of-frame segment found walking JPEG marker
/// segments from `pos`.
pub open spec fn jpeg_scan(d: Seq<u8>, pos: int) -> Option<(int, int)>
    decreases d.len() - pos,
{
    if pos < 0 || pos + 4 > d.len() || d[pos] != 0xff {
        None
    } else if jpeg_is_sof(d[pos + 1]) {
        if pos + 9 > d.len() { None } else { Some((u16_be(d, pos + 7), u16_be(d, pos + 5))) }
    } else if d[pos + 1] == 0xda {
        None
    } else if d[pos + 1] == 0x01 || (0xd0 <= d[pos + 1] <= 0xd9) {
        jpeg_scan(d, pos + 2)
    } else if pos + 2 + u16_be(d, pos + 2) > d.len() {
        None
    } else {
        jpeg_scan(d, pos + 2 + u16_be(d, pos + 2))
    }
}

/// The dimensions a picture's own header gives: JPEG frame header or PNG IHDR.
pub open spec fn picture_dims(is_jpeg: bool, d: Seq<u8>) -> Option<(int, int)> {
    if is_jpeg {
        if has_tag(d, 0, seq![0xffu8, 0xd8]) { jpeg_scan(d, 2) } else { None }
    } else if d.len() >= 24 && has_tag(d, 0, seq![0x89u8, 0x50, 0x4e, 0x47, 0x0d, 0x0a, 0x1a, 0x0a]) && has_tag(d, 12, seq![0x49u8, 0x48, 0x44, 0x52]) {
        Some((u32_be(d, 16), u32_be(d, 20)))
    } else {
        None
    }
}

/// The picture a PICTURE metadata block `d` describes, when its MIME type is JPEG or PNG.
pub open spec fn flac_picture(d: Seq<u8>) -> core::result::Result<Option<FlacPicture>, Failure> {
    let mime_end = 8 + u32_be(d, 4);
    let mime = d.subrange(8, mime_end);
    let codec: &'static str = if mime == seq![0x69u8, 0x6d, 0x61, 0x67, 0x65, 0x2f, 0x6a, 0x70, 0x65, 0x67] { "mjpeg" } else { "png" };
    let desc_end = mime_end + 4 + u32_be(d, mime_end);
    let fields_end = desc_end + 20;
    let image_end = fields_end + u32_be(d, desc_end + 16);
    if d.len() < 32 {
        Err(eof(32, d.len() as int))
    } else if mime_end > usize::MAX {
        Err(Failure::InvalidData)
    } else if mime_end > d.len() {
        Err(eof(mime_end, d.len() as int))
    } else if mime != seq![0x69u8, 0x6d, 0x61, 0x67, 0x65, 0x2f, 0x6a, 0x70, 0x65, 0x67] && mime != seq![0x69u8, 0x6d, 0x61, 0x67, 0x65, 0x2f, 0x70, 0x6e, 0x67] {
        Ok(None)
    } else if mime_end + 4 > d.len() {
        Err(eof(sat(mime_end + 4), d.len() as int))
    } else if fields_end > usize::MAX {
        Err(Failure::InvalidData)
    } else if fields_end > d.len() {
        Err(eof(fields_end, d.len() as int))
    } else if image_end > usize::MAX {
        Err(Failure::InvalidData)
    } else if image_end > d.len() {
        Err(eof(image_end, d.len() as int))
    } else if u32_be(d, desc_end) == 0 || u32_be(d, desc_end + 4) == 0 {
        match picture_dims(mime == seq![0x69u8, 0x6d, 0x61, 0x67, 0x65, 0x2f, 0x6a, 0x70, 0x65, 0x67], d.subrange(fields_end, image_end)) {
            None => Ok(None),
            Some(wh) => Ok(Some(FlacPicture { codec_name: codec, width: wh.0 as u32, height: wh.1 as u32 })),
        }
    } else {
        Ok(Some(FlacPicture { codec_name: codec, width: u32_be(d, desc_end) as u32, height: u32_be(d, desc_end + 4) as u32 }))
    }
}

/// The STREAMINFO block's latest location and the pictures, walking metadata blocks from `pos`.
pub open spec fn flac_walk(b: Seq<u8>, pos: int, si: Option<(int, int)>, pics: Seq<FlacPicture>)
    -> core::result::Result<(Option<(int, int)>, Seq<FlacPicture>), Failure>
    decreases b.len() - pos,
{
    let len = b[pos + 1] * 65536 + b[pos + 2] * 256 + b[pos + 3];
    let start = pos + 4;
    let end = start + len;
    let kind = b[pos] & 0x7f;
    if pos < 0 || pos + 4 > b.len() {
        Ok((si, pics))
    } else if end > b.len() {
        Err(eof(sat(end), b.len() as int))
    } else {
        let si2 = if kind == 0 { Some((start, end)) } else { si };
        let step = if kind == 6 {
            match flac_picture(b.subrange(start, end)) {
                Err(e) => Err(e),
                Ok(None) => Ok(pics),
                Ok(Some(p)) => Ok(pics.push(p)),
            }
        } else {
            Ok(pics)
        };
        match step {
            Err(e) => Err(e),
            Ok(pics2) => if b[pos] & 0x80 != 0 {
                Ok((si2, pics2))
            } else {
                flac_walk(b, end, si2, pics2)
            },
        }
    }
}

/// The audio stream a STREAMINFO block `d` describes.
pub open spec fn flac_streaminfo(d: Seq<u8>) -> core::result::Result<StreamMetadata, Failure> {
    let rate = d[10] * 4096 + d[11] * 16 + d[12] / 16;
    let channels = (d[12] % 16) / 2 + 1;
    let bits = (d[12] % 2) * 16 + d[13] / 16 + 1;
    let total = (d[13] % 16) * 4294967296 + u32_be(d, 14);
    if d.len() < 34 {
        Err(eof(34, d.len() as int))
    } else if rate == 0 {
        Err(Failure::InvalidData)
    } else {
        Ok(audio_stream(0, "flac", rate, channels, bits, secs(total, rate)))
    }
}

/// The probe of a native FLAC file: the audio stream, then one video stream per picture.
pub open spec fn spec_parse_flac(b: Seq<u8>) -> core::result::Result<Probe, Failure> {
    if !has_tag(b, 0, seq![0x66u8, 0x4c, 0x61, 0x43]) {
        Err(Failure::InvalidData)
    } else {
        match flac_walk(b, 4, None, Seq::empty()) {
            Err(e) => Err(e),
            Ok(w) => match w.0 {
                None => Err(Failure::InvalidData),
                Some(r) => match flac_streaminfo(b.subrange(r.0, r.1)) {
                    Err(e) => Err(e),
                    Ok(audio) => Ok(Probe {
                        format: "flac",
                        streams: seq![audio] + Seq::new(w.1.len(), |i: int| video_stream(i + 1, w.1[i].codec_name,
                            w.1[i].width as int, w.1[i].height as int, audio.duration_seconds, None)),
                    }),
                },
            },
        }
    }
}

/// Probes a native FLAC file.
pub fn parse_flac(bytes: &[u8]) -> (r: Result<ProbeDocument>)
    ensures
        probe_outcome(r) == spec_parse_flac(bytes@),
{
    if !tag_at(bytes, 0, &[0x66u8, 0x4c, 0x61, 0x43]) {
        return Err(invalid_data("missing FLAC marker"));
    }
    let mut pos: usize = 4;
    let mut streaminfo: Option<(usize, usize)> = None;
    let mut pictures: Vec<FlacPicture> = Vec::new();
    let ghost sv = |o: Option<(usize, usize)>| match o { Some(p) => Some((p.0 as int, p.1 as int)), None => None };
    while pos <= bytes.len() && bytes.len() - pos >= 4
        invariant_except_break
            flac_walk(bytes@, 4, None, Seq::empty()) == flac_walk(bytes@, pos as int, sv(streaminfo), pictures@),
        invariant
            4 <= pos,
            has_tag(bytes@, 0, seq![0x66u8, 0x4c, 0x61, 0x43]),
            forall|o: Option<(usize, usize)>| #[trigger] sv(o) == match o { Some(p) => Some((p.0 as int, p.1 as int)), None => None },
            streaminfo matches Some(p) ==> p.0 <= p.1 <= bytes@.len(),
        ensures
            flac_walk(bytes@, 4, None, Seq::empty()) == Ok::<(Option<(int, int)>, Seq<FlacPicture>), Failure>(
                (sv(streaminfo), pictures@)),
        decreases bytes.len() - pos,
    {
        let header = bytes[pos];
        let is_last = header & 0x80 != 0;
        let block_type = header & 0x7f;
        let len = bytes[pos + 1] as usize * 65536 + bytes[pos + 2] as usize * 256 + bytes[pos + 3] as usize;
        let start = pos + 4;
        if len > bytes.len() - start {
            return Err(unexpected_eof(sat_add(start, len), bytes.len()));
        }
        let end = start + len;
        let ghost pics0 = pictures@;
        if block_type == 0 {
            streaminfo = Some((start, end));
        } else if block_type == 6 {
            match parse_picture(&bytes[start..end]) {
                Ok(Some(picture)) => pictures.push(picture),
                Ok(None) => {},
                Err(e) => return Err(e),
            }
        }
        if is_last {
            break;
        }
        pos = end;
    }
    let (si_start, si_end) = match streaminfo {
        Some(p) => p,
        None => return Err(invalid_data("missing FLAC STREAMINFO block")),
    };
    let audio = match parse_streaminfo(&bytes[si_start..si_end]) {
        Ok(v) => v,
        Err(e) => return Err(e),
    };
    let duration = audio.duration_seconds;
    let mut streams: Vec<StreamMetadata> = Vec::new();
    streams.push(audio);
    let mut i: usize = 0;
    while i < pictures.len()
        invariant
            i <= pictures@.len(),
            streams@.len() == i + 1,
            streams@[0] == audio,
            forall|j: int| 1 <= j <= i ==> #[trigger] streams@[j] == video_stream(j, pictures@[j - 1].codec_name,
                pictures@[j - 1].width as int, pictures@[j - 1].height as int, duration, None),
        decreases pictures@.len() - i,
    {
        let picture = pictures[i];
        streams.push(StreamMetadata::video(i + 1, picture.codec_name, picture.width, picture.height, duration, None));
        i += 1;
    }
    proof {
        assert(streams@ =~= seq![audio] + Seq::new(pictures@.len(), |j: int| video_stream(j + 1,
            pictures@[j].codec_name, pictures@[j].width as int, pictures@[j].height as int, duration, None)));
    }
    Ok(ProbeDocument { format: "flac", streams })
}

fn parse_streaminfo(data: &[u8]) -> (r: Result<StreamMetadata>)
    ensures
        match r {
            Ok(s) => flac_streaminfo(data@) == Ok::<StreamMetadata, Failure>(s),
            Err(e) => flac_streaminfo(data@) == Err::<StreamMetadata, Failure>(failure(e)),
        },
{
    if data.len() < 34 {
        return Err(unexpected_eof(34, data.len()));
    }
    let sample_rate = data[10] as u32 * 4096 + data[11] as u32 * 16 + data[12] as u32 / 16;
    let channels = ((data[12] % 16) / 2 + 1) as u16;
    let bits_per_sample = ((data[12] % 2) as u16) * 16 + (data[13] / 16) as u16 + 1;
    let low = match read_u32_be(data, 14) {
        Ok(v) => v,
        Err(e) => return Err(e),
    };
    let total_samples = (data[13] % 16) as u64 * 4294967296 + low as u64;
    if sample_rate == 0 {
        return Err(invalid_data("FLAC STREAMINFO has zero sample rate"));
    }
    let duration = Seconds { num: total_samples as u128, den: sample_rate as u128 };
    Ok(StreamMetadata::audio(0, "flac", sample_rate, channels, bits_per_sample, duration))
}

fn parse_picture(data: &[u8]) -> (r: Result<Option<FlacPicture>>)
    ensures
        match r {
            Ok(p) => flac_picture(data@) == Ok::<Option<FlacPicture>, Failure>(p),
            Err(e) => flac_picture(data@) == Err::<Option<FlacPicture>, Failure>(failure(e)),
        },
{
    if data.len() < 32 {
        return Err(unexpected_eof(32, data.len()));
    }
    let mime_len = match read_u32_be(data, 4) {
        Ok(v) => v,
        Err(e) => return Err(e),
    } as usize;
    let mime_start: usize = 8;
    if mime_len > usize::MAX - mime_start {
        return Err(invalid_data("FLAC picture MIME overflow"));
    }
    let mime_end = mime_start + mime_len;
    if mime_end > data.len() {
        return Err(unexpected_eof(mime_end, data.len()));
    }
    let is_jpeg = mime_len == 10 && tag_at(data, 8, &[0x69u8, 0x6d, 0x61, 0x67, 0x65, 0x2f, 0x6a, 0x70, 0x65, 0x67]);
    let is_png = mime_len == 9 && tag_at(data, 8, &[0x69u8, 0x6d, 0x61, 0x67, 0x65, 0x2f, 0x70, 0x6e, 0x67]);
    proof {
        let mime = data@.subrange(8, mime_end as int);
        assert(mime.len() == mime_len);
        if mime == seq![0x69u8, 0x6d, 0x61, 0x67, 0x65, 0x2f, 0x6a, 0x70, 0x65, 0x67] {
            assert(mime_len == 10);
            assert(data@.subrange(8, 18) =~= mime);
        }
        if is_jpeg {
            assert(mime_end == 18);
            assert(data@.subrange(8, 18) =~= mime);
        }
        if mime == seq![0x69u8, 0x6d, 0x61, 0x67, 0x65, 0x2f, 0x70, 0x6e, 0x67] {
            assert(mime_len == 9);
            assert(data@.subrange(8, 17) =~= mime);
        }
        if is_png {
            assert(mime_end == 17);
            assert(data@.subrange(8, 17) =~= mime);
        }
    }
    let codec_name: &'static str = if is_jpeg {
        "mjpeg"
    } else if is_png {
        "png"
    } else {
        return Ok(None);
    };
    if data.len() - mime_end < 4 {
        return Err(unexpected_eof(sat_add(mime_end, 4), data.len()));
    }
    let desc_len = match read_u32_be(data, mime_end) {
        Ok(v) => v,
        Err(e) => return Err(e),
    } as usize;
    let desc_start = mime_end + 4;
    if desc_len > usize::MAX - desc_start || desc_start + desc_len > usize::MAX - 20 {
        return Err(invalid_data("FLAC picture fields overflow"));
    }
    let desc_end = desc_start + desc_len;
    let fields_end = desc_end + 20;
    if fields_end > data.len() {
        return Err(unexpected_eof(fields_end, data.len()));
    }
    let mut width = match read_u32_be(data, desc_end) {
        Ok(v) => v,
        Err(e) => return Err(e),
    };
    let mut height = match read_u32_be(data, desc_end + 4) {
        Ok(v) => v,
        Err(e) => return Err(e),
    };
    let data_len = match read_u32_be(data, desc_end + 16) {
        Ok(v) => v,
        Err(e) => return Err(e),
    } as usize;
    if data_len > usize::MAX - fields_end {
        return Err(invalid_data("FLAC picture data overflow"));
    }
    let image_end = fields_end + data_len;
    if image_end > data.len() {
        return Err(unexpected_eof(image_end, data.len()));
    }
    let image_data = &data[fields_end..image_end];
    if width == 0 || height == 0 {
        match parse_embedded_picture_dimensions(is_jpeg, image_data) {
            Some((w, h)) => {
                width = w;
                height = h;
            },
            None => return Ok(None),
        }
    }
    Ok(Some(FlacPicture { codec_name, width, height }))
}

/// The dimensions an embedded JPEG or PNG picture declares in its own header.
fn parse_embedded_picture_dimensions(is_jpeg: bool, image_data: &[u8]) -> (r: Option<(u32, u32)>)
    ensures
        match r {
            Some(wh) => picture_dims(is_jpeg, image_data@) == Some((wh.0 as int, wh.1 as int)),
            None => picture_dims(is_jpeg, image_data@) is None,
        },
{
    if is_jpeg {
        if !tag_at(image_data, 0, &[0xffu8, 0xd8]) {
            return None;
        }
        jpeg_dimensions(image_data)
    } else {
        if image_data.len() >= 24 && tag_at(image_data, 0, &[0x89u8, 0x50, 0x4e, 0x47, 0x0d, 0x0a, 0x1a, 0x0a]) && tag_at(image_data, 12, &[0x49u8, 0x48, 0x44, 0x52]) {
            Some((be32(image_data, 16), be32(image_data, 20)))
        } else {
            None
        }
    }
}

fn jpeg_dimensions(d: &[u8]) -> (r: Option<(u32, u32)>)
    ensures
        match r {
            Some(wh) => jpeg_scan(d@, 2) == Some((wh.0 as int, wh.1 as int)),
            None => jpeg_scan(d@, 2) is None,
        },
{
    let mut pos: usize = 2;
    while pos <= d.len() && d.len() - pos >= 4
        invariant
            2 <= pos,
            jpeg_scan(d@, 2) == jpeg_scan(d@, pos as int),
        decreases d.len() - pos,
    {
        if d[pos] != 0xff {
            return None;
        }
        let marker = d[pos + 1];
        if 0xc0 <= marker && marker <= 0xcf && marker != 0xc4 && marker != 0xc8 && marker != 0xcc {
            if d.len() - pos < 9 {
                return None;
            }
            return Some((be16(d, pos + 7) as u32, be16(d, pos + 5) as u32));
        }
        if marker == 0xda {
            return None;
        }
        if marker == 0x01 || (0xd0 <= marker && marker <= 0xd9) {
            pos = pos + 2;
        } else {
            let seg = be16(d, pos + 2) as usize;
            if seg + 2 > d.len() - pos {
                return None;
            }
            pos = pos + 2 + seg;
        }
    }
    None
}

fn read_u32_be(bytes: &[u8], offset: usize) -> (r: Result<u32>)
    requires
        offset <= usize::MAX - 4,
    ensures
        read_outcome32(r) == read_result(bytes@, offset as int, 4, u32_be(bytes@, offset as int)),
{
    if offset + 4 > bytes.len() {
        return Err(unexpected_eof(offset + 4, bytes.len()));
    }
    Ok(be32(bytes, offset))
}

} // verus!
