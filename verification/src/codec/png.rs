use vstd::prelude::*;
use crate::codec::digest::{frame_entry, listing_outcome, single_frame_listing, FrameHashView};
use crate::codec::gif::{video_listing_outcome, VideoListing};
use crate::codec::video::VideoFrameHashDocument;
use crate::error::{invalid_data, Failure, Result, RmpegError};
use crate::metadata::AudioFrameHash;

verus! {

/// The first frame that the `png` crate decodes from `data` (its output rows, packed),
/// or the text of the crate's decoding error (`None` where the crate could not give the
/// size of its output).
pub uninterp spec fn png_first_frame(data: Seq<u8>) -> core::result::Result<Seq<u8>, Option<Seq<char>>>;

/// A decoding result by the views of its parts.
pub open spec fn png_view(r: core::result::Result<Vec<u8>, Option<String>>) -> core::result::Result<Seq<u8>, Option<Seq<char>>> {
    match r {
        Ok(v) => Ok(v@),
        Err(Some(m)) => Err(Some(m@)),
        Err(None) => Err(None),
    }
}

/// The listing of a decoded PNG image: its one frame, or invalid data.
pub open spec fn png_listing_spec(d: core::result::Result<Seq<u8>, Option<Seq<char>>>) -> core::result::Result<Seq<FrameHashView>, Failure> {
    match d {
        Ok(f) => Ok(seq![frame_entry(0, f)]),
        Err(_) => Err(Failure::InvalidData),
    }
}

/// Decodes the first frame with the `png` crate: `Decoder::new`, `read_info`,
/// `output_buffer_size` and `next_frame`, keeping the bytes that `buffer_size` of the
/// returned frame information counts. The contract names what comes out; nothing more
/// is stated of it.
#[verifier::external_body]
fn png_decode_first_frame(input: &[u8]) -> (r: core::result::Result<Vec<u8>, Option<String>>)
    ensures
        png_view(r) == png_first_frame(input@),
{
    let decoder = ::png::Decoder::new(std::io::Cursor::new(input));
    let mut reader = match decoder.read_info() {
        Ok(reader) => reader,
        Err(error) => return Err(Some(error.to_string())),
    };
    let Some(size) = reader.output_buffer_size() else { return Err(None) };
    let mut output = vec![0u8; size];
    let info = match reader.next_frame(&mut output) {
        Ok(info) => info,
        Err(error) => return Err(Some(error.to_string())),
    };
    output.truncate(info.buffer_size());
    Ok(output)
}

/// The listing built from a PNG decoding result: one frame, or an invalid-data error
/// carrying the decoder's message.
pub fn png_listing(decoded: core::result::Result<Vec<u8>, Option<String>>) -> (r: Result<Vec<AudioFrameHash>>)
    ensures
        listing_outcome(r) == png_listing_spec(png_view(decoded)),
        decoded matches Err(Some(m)) ==> r matches Err(RmpegError::InvalidData(t)) && t@ == m@,
{
    match decoded {
        Ok(frame) => Ok(single_frame_listing(frame.as_slice())),
        Err(Some(message)) => Err(RmpegError::InvalidData(message)),
        Err(None) => Err(invalid_data("PNG output size is unavailable")),
    }
}

/// The frame-checksum listing of a PNG image: its first frame as the `png` crate decodes it.
pub fn png_image_frame_hashes(input: &[u8]) -> (r: Result<Vec<AudioFrameHash>>)
    ensures
        listing_outcome(r) == png_listing_spec(png_first_frame(input@)),
{
    png_listing(png_decode_first_frame(input))
}


/// The picture size that the `png` crate reads from the header of `data`, or the text
/// of its error.
pub uninterp spec fn png_header_size(data: Seq<u8>) -> core::result::Result<(u32, u32), Seq<char>>;

/// Reads the picture size with the `png` crate: `Decoder::new` and `read_info`, then
/// the `width` and `height` of the header information. The contract names what comes
/// out; nothing more is stated of it.
#[verifier::external_body]
fn png_read_size(input: &[u8]) -> (r: core::result::Result<(u32, u32), String>)
    ensures
        match r {
            Ok(size) => png_header_size(input@) == Ok::<(u32, u32), Seq<char>>(size),
            Err(m) => png_header_size(input@) == Err::<(u32, u32), Seq<char>>(m@),
        },
{
    match ::png::Decoder::new(std::io::Cursor::new(input)).read_info() {
        Ok(reader) => Ok((reader.info().width, reader.info().height)),
        Err(error) => Err(error.to_string()),
    }
}

/// The video listing of a PNG image: its one decoded frame, with the picture size of
/// its header, at 25 frames a second.
pub open spec fn spec_png_document(data: Seq<u8>) -> core::result::Result<VideoListing, Failure> {
    match png_listing_spec(png_first_frame(data)) {
        Err(e) => Err(e),
        Ok(frames) => match png_header_size(data) {
            Err(_) => Err(Failure::InvalidData),
            Ok(size) => Ok(VideoListing {
                width: size.0 as int,
                height: size.1 as int,
                frame_rate_num: 25,
                frame_rate_den: 1,
                frames,
            }),
        },
    }
}

/// The video listing of a PNG image; a header the `png` crate refuses gives invalid data
/// carrying the crate's message.
pub fn png_image_frame_hash_document(input: &[u8]) -> (r: Result<VideoFrameHashDocument>)
    ensures
        video_listing_outcome(r) == spec_png_document(input@),
        png_first_frame(input@) is Ok ==> (png_header_size(input@) matches Err(m)
            ==> r matches Err(RmpegError::InvalidData(t)) && t@ == m),
{
    let frames = match png_image_frame_hashes(input) {
        Ok(f) => f,
        Err(e) => return Err(e),
    };
    let (width, height) = match png_read_size(input) {
        Ok(size) => size,
        Err(message) => return Err(RmpegError::InvalidData(message)),
    };
    Ok(VideoFrameHashDocument { width, height, frame_rate_num: 25, frame_rate_den: 1, frames })
}

} // verus!
