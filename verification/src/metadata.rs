use vstd::prelude::*;
use crate::error::{failure, Failure, Result};

verus! {

/// A fraction kept exactly as its numerator and denominator.
#[derive(Debug, Clone, Copy, PartialEq, Eq)]
pub struct Rational {
    pub num: i64,
    pub den: i64,
}

impl Rational {
    /// The fraction `num / den`, stored as given.
    pub fn new(num: i64, den: i64) -> (r: Self)
        ensures
            r.num == num,
            r.den == den,
    {
        Rational { num, den }
    }
}

/// A length of time in seconds, kept as the exact fraction `num / den`.
#[derive(Debug, Clone, Copy, PartialEq, Eq)]
pub struct Seconds {
    pub num: u128,
    pub den: u128,
}

impl Seconds {
    /// Whether the fraction is a number (its denominator is not zero).
    pub open spec fn wf(self) -> bool {
        self.den > 0
    }

    /// The value `num / den` scaled by `den`-free cross products: `self` is at
    /// most `other` exactly when `num * other.den <= other.num * den`.
    pub open spec fn le(self, other: Seconds) -> bool {
        self.num * other.den <= other.num * self.den
    }
}

/// `num / den` seconds.
pub open spec fn secs(num: int, den: int) -> Seconds {
    Seconds { num: num as u128, den: den as u128 }
}

/// Zero seconds, written as `0 / 1`.
pub open spec fn zero_secs() -> Seconds {
    Seconds { num: 0, den: 1 }
}

/// Zero seconds.
pub fn zero_seconds() -> (r: Seconds)
    ensures
        r == zero_secs(),
{
    Seconds { num: 0, den: 1 }
}

/// One demuxed packet of a stream.
#[derive(Debug, Clone, PartialEq, Eq)]
pub struct Packet {
    pub stream_index: usize,
    pub pts: u64,
    pub duration: u32,
    pub data: Vec<u8>,
}

/// One line of a frame-checksum listing.
#[derive(Debug, Clone, PartialEq, Eq)]
pub struct AudioFrameHash {
    pub stream_index: usize,
    pub dts: u64,
    pub pts: u64,
    pub duration: u32,
    pub size: usize,
    pub hash: String,
}

/// The metadata of an audio stream read from a PCM container header; its duration is
/// kept as an exact fraction of seconds.
#[derive(Debug, Clone, PartialEq, Eq)]
pub struct AudioStreamMetadata {
    pub index: usize,
    pub codec_type: String,
    pub codec_name: String,
    pub sample_rate: u32,
    pub channels: u16,
    pub bits_per_sample: u16,
    pub duration_seconds: Seconds,
    pub data_size: u32,
    pub block_align: u16,
}

/// What a probe reports of one stream.
#[derive(Debug, Clone, PartialEq, Eq)]
pub struct StreamMetadata {
    pub index: usize,
    pub codec_type: &'static str,
    pub codec_name: &'static str,
    pub sample_rate: Option<u32>,
    pub channels: Option<u16>,
    pub bits_per_sample: Option<u16>,
    pub duration_seconds: Option<Seconds>,
    pub width: Option<u32>,
    pub height: Option<u32>,
    pub frame_rate: Option<&'static str>,
}

/// What a probe reports of a whole file.
#[derive(Debug, Clone, PartialEq, Eq)]
pub struct ProbeDocument {
    pub format: &'static str,
    pub streams: Vec<StreamMetadata>,
}

/// The spec-level content of a probe: the format name and its streams.
pub struct Probe {
    pub format: &'static str,
    pub streams: Seq<StreamMetadata>,
}

impl View for ProbeDocument {
    type V = Probe;

    open spec fn view(&self) -> Probe {
        Probe { format: self.format, streams: self.streams@ }
    }
}

/// A probe result reduced to the document's content or the error's kind.
pub open spec fn probe_outcome(r: Result<ProbeDocument>) -> core::result::Result<Probe, Failure> {
    match r {
        Ok(doc) => Ok(doc@),
        Err(e) => Err(failure(e)),
    }
}

impl ProbeDocument {
    /// A document of one stream.
    pub fn single(format: &'static str, stream: StreamMetadata) -> (d: Self)
        ensures
            d@ == (Probe { format, streams: seq![stream] }),
    {
        let streams = vec![stream];
        assert(streams@ =~= seq![stream]);
        ProbeDocument { format, streams }
    }

    /// A document of two streams, in the given order.
    pub fn pair(format: &'static str, first: StreamMetadata, second: StreamMetadata) -> (d: Self)
        ensures
            d@ == (Probe { format, streams: seq![first, second] }),
    {
        let streams = vec![first, second];
        assert(streams@ =~= seq![first, second]);
        ProbeDocument { format, streams }
    }
}

/// The audio stream description that `StreamMetadata::audio` builds.
pub open spec fn audio_stream(
    index: int,
    codec_name: &'static str,
    sample_rate: int,
    channels: int,
    bits_per_sample: int,
    duration: Seconds,
) -> StreamMetadata {
    StreamMetadata {
        index: index as usize,
        codec_type: "audio",
        codec_name,
        sample_rate: Some(sample_rate as u32),
        channels: Some(channels as u16),
        bits_per_sample: Some(bits_per_sample as u16),
        duration_seconds: Some(duration),
        width: None,
        height: None,
        frame_rate: None,
    }
}

/// The video stream description that `StreamMetadata::video` builds.
pub open spec fn video_stream(
    index: int,
    codec_name: &'static str,
    width: int,
    height: int,
    duration: Option<Seconds>,
    frame_rate: Option<&'static str>,
) -> StreamMetadata {
    StreamMetadata {
        index: index as usize,
        codec_type: "video",
        codec_name,
        sample_rate: None,
        channels: None,
        bits_per_sample: None,
        duration_seconds: duration,
        width: Some(width as u32),
        height: Some(height as u32),
        frame_rate,
    }
}

impl StreamMetadata {
    /// An audio stream with every audio field known.
    pub fn audio(
        index: usize,
        codec_name: &'static str,
        sample_rate: u32,
        channels: u16,
        bits_per_sample: u16,
        duration: Seconds,
    ) -> (r: Self)
        ensures
            r == audio_stream(
                index as int,
                codec_name,
                sample_rate as int,
                channels as int,
                bits_per_sample as int,
                duration,
            ),
    {
        StreamMetadata {
            index,
            codec_type: "audio",
            codec_name,
            sample_rate: Some(sample_rate),
            channels: Some(channels),
            bits_per_sample: Some(bits_per_sample),
            duration_seconds: Some(duration),
            width: None,
            height: None,
            frame_rate: None,
        }
    }

    /// A video stream of the given dimensions.
    pub fn video(
        index: usize,
        codec_name: &'static str,
        width: u32,
        height: u32,
        duration: Option<Seconds>,
        frame_rate: Option<&'static str>,
    ) -> (r: Self)
        ensures
            r == video_stream(index as int, codec_name, width as int, height as int, duration, frame_rate),
    {
        StreamMetadata {
            index,
            codec_type: "video",
            codec_name,
            sample_rate: None,
            channels: None,
            bits_per_sample: None,
            duration_seconds: duration,
            width: Some(width),
            height: Some(height),
            frame_rate,
        }
    }
}

} // verus!
