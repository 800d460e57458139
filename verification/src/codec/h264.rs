use vstd::prelude::*;
use openh264::formats::YUVSource;
use crate::codec::digest::{listing_view, FrameHashView};
use crate::codec::video::{push_yuv420p_frame_hash, Mp4H264BitstreamConverter, VideoFrameHashDocument, Yuv420Picture};
use crate::error::{invalid_data, join3, Result, RmpegError};
use crate::metadata::AudioFrameHash;

verus! {

/// The OpenH264 decoder, carried through as an opaque value.
#[verifier::external_type_specification]
#[verifier::external_body]
pub struct ExH264Decoder(openh264::decoder::Decoder);

/// A picture that the decoder put out, copied out of the decoder's buffers: its size,
/// the stride of each plane, and the planes.
pub struct DecodedPicture {
    pub width: usize,
    pub height: usize,
    pub y_stride: usize,
    pub u_stride: usize,
    pub v_stride: usize,
    pub y: Vec<u8>,
    pub u: Vec<u8>,
    pub v: Vec<u8>,
}

impl DecodedPicture {
    /// The picture as a borrowed YUV 4:2:0 picture.
    pub fn as_picture(&self) -> (p: Yuv420Picture)
        ensures
            p.width == self.width,
            p.height == self.height,
            p.y_stride == self.y_stride,
            p.u_stride == self.u_stride,
            p.v_stride == self.v_stride,
            p.y@ == self.y@,
            p.u@ == self.u@,
            p.v@ == self.v@,
    {
        Yuv420Picture {
            width: self.width,
            height: self.height,
            y_stride: self.y_stride,
            u_stride: self.u_stride,
            v_stride: self.v_stride,
            y: self.y.as_slice(),
            u: self.u.as_slice(),
            v: self.v.as_slice(),
        }
    }
}

/// Opens OpenH264's built-in decoder (`Decoder::with_api_config` with
/// `OpenH264API::from_source` and a `DecoderConfig` with tracing off and no flush after
/// each packet), or gives the text of its error. Nothing is stated of the outcome.
#[verifier::external_body]
fn h264_decoder_open() -> (r: core::result::Result<openh264::decoder::Decoder, String>) {
    let config = openh264::decoder::DecoderConfig::new()
        .debug(false)
        .flush_after_decode(openh264::decoder::Flush::NoFlush);
    match openh264::decoder::Decoder::with_api_config(openh264::OpenH264API::from_source(), config) {
        Ok(decoder) => Ok(decoder),
        Err(error) => Err(error.to_string()),
    }
}

/// Hands one Annex B packet to the decoder (`Decoder::decode`) and copies out the
/// picture it puts out, if any, or gives the text of its error. What comes out depends
/// on the packets decoded before; nothing is stated of it.
#[verifier::external_body]
fn h264_decode_packet(decoder: &mut openh264::decoder::Decoder, packet: &[u8]) -> (r: core::result::Result<Option<DecodedPicture>, String>) {
    match decoder.decode(packet) {
        Ok(Some(image)) => {
            let ((width, height), (y_stride, u_stride, v_stride)) = (image.dimensions(), image.strides());
            Ok(Some(DecodedPicture { width, height, y_stride, u_stride, v_stride,
                y: image.y().to_vec(), u: image.u().to_vec(), v: image.v().to_vec() }))
        },
        Ok(None) => Ok(None),
        Err(error) => Err(error.to_string()),
    }
}

/// Takes the pictures still buffered in the decoder (`Decoder::flush_remaining`), each
/// copied out, or gives the text of its error. Nothing is stated of the outcome.
#[verifier::external_body]
fn h264_flush(decoder: &mut openh264::decoder::Decoder) -> (r: core::result::Result<Vec<DecodedPicture>, String>) {
    match decoder.flush_remaining() {
        Ok(images) => Ok(images.iter().map(|image| {
            let ((width, height), (y_stride, u_stride, v_stride)) = (image.dimensions(), image.strides());
            DecodedPicture { width, height, y_stride, u_stride, v_stride,
                y: image.y().to_vec(), u: image.u().to_vec(), v: image.v().to_vec() }
        }).collect()),
        Err(error) => Err(error.to_string()),
    }
}

/// What an MP4 file gives the H.264 decode: the NAL length-prefix size, the parameter
/// sets, the samples in decoding order, the picture size and the frame rate.
pub struct H264SampleData {
    pub length_size: usize,
    pub sps: Vec<Vec<u8>>,
    pub pps: Vec<Vec<u8>>,
    pub samples: Vec<Vec<u8>>,
    pub width: u32,
    pub height: u32,
    pub frame_rate_num: u32,
    pub frame_rate_den: u32,
}

/// Line `k` of a listing is frame `k` of stream 0, one time-base tick long.
pub open spec fn numbered_frames(v: Seq<FrameHashView>) -> bool {
    forall|k: int| 0 <= k < v.len() ==> {
        let e = #[trigger] v[k];
        &&& e.stream_index == 0
        &&& e.dts == k
        &&& e.pts == k
        &&& e.duration == 1
    }
}

/// An OpenH264 error as this library's error.
fn decode_failed(message: String) -> (e: RmpegError)
    ensures
        e is InvalidData,
{
    RmpegError::InvalidData(join3("OpenH264 decode failed: ", message.as_str(), ""))
}

/// Decodes the H.264 samples of an MP4 video track with OpenH264 and lists a checksum
/// line per decoded picture (its planes packed as YUV 4:2:0). The pictures depend on
/// the decoder, so the contract states what holds whatever it puts out: a refused
/// length-prefix size or missing parameter sets fail, and a listing has the track's
/// size and rate and numbers its frames from zero, one tick each.
pub fn mp4_h264_frame_hashes(sample_data: H264SampleData) -> (r: Result<VideoFrameHashDocument>)
    ensures
        !(sample_data.length_size == 1 || sample_data.length_size == 2 || sample_data.length_size == 4) ==> r is Err,
        sample_data.sps@.len() == 0 || sample_data.pps@.len() == 0 ==> r is Err,
        r matches Ok(doc) ==> {
            &&& doc.width == sample_data.width
            &&& doc.height == sample_data.height
            &&& doc.frame_rate_num == sample_data.frame_rate_num
            &&& doc.frame_rate_den == sample_data.frame_rate_den
            &&& doc.frames@.len() > 0
            &&& numbered_frames(listing_view(doc.frames@))
        },
{
    let mut decoder = match h264_decoder_open() {
        Ok(d) => d,
        Err(m) => return Err(decode_failed(m)),
    };
    let H264SampleData { length_size, sps, pps, samples, width, height, frame_rate_num, frame_rate_den } = sample_data;
    let converter = match Mp4H264BitstreamConverter::new(length_size, sps, pps) {
        Ok(c) => c,
        Err(e) => return Err(e),
    };
    let mut packet: Vec<u8> = Vec::new();
    let mut frames: Vec<AudioFrameHash> = Vec::new();
    let mut i: usize = 0;
    while i < samples.len()
        invariant
            i <= samples@.len(),
            numbered_frames(listing_view(frames@)),
            listing_view(frames@).len() == frames@.len(),
        decreases samples@.len() - i,
    {
        match converter.convert_packet(samples[i].as_slice(), &mut packet) {
            Ok(()) => {},
            Err(e) => return Err(e),
        }
        if packet.len() > 0 {
            match h264_decode_packet(&mut decoder, packet.as_slice()) {
                Ok(Some(picture)) => {
                    match push_yuv420p_frame_hash(&picture.as_picture(), width, height, &mut frames) {
                        Ok(()) => {},
                        Err(e) => return Err(e),
                    }
                },
                Ok(None) => {},
                Err(m) => return Err(decode_failed(m)),
            }
        }
        i = i + 1;
    }
    let flushed = match h264_flush(&mut decoder) {
        Ok(p) => p,
        Err(m) => return Err(decode_failed(m)),
    };
    let mut j: usize = 0;
    while j < flushed.len()
        invariant
            j <= flushed@.len(),
            numbered_frames(listing_view(frames@)),
            listing_view(frames@).len() == frames@.len(),
        decreases flushed@.len() - j,
    {
        match push_yuv420p_frame_hash(&flushed[j].as_picture(), width, height, &mut frames) {
            Ok(()) => {},
            Err(e) => return Err(e),
        }
        j = j + 1;
    }
    if frames.len() == 0 {
        return Err(invalid_data("OpenH264 did not produce decoded frames"));
    }
    Ok(VideoFrameHashDocument { width, height, frame_rate_num, frame_rate_den, frames })
}

} // verus!
