use vstd::prelude::*;
use crate::error::{failure, Failure, Result};
use crate::metadata::AudioFrameHash;

verus! {

/// The MD5 digest of `data` (16 bytes), as RFC 1321 defines it.
pub uninterp spec fn md5_digest(data: Seq<u8>) -> Seq<u8>;

/// Calls `md5::compute`. The crate returns a `Digest` wrapping the 16 digest bytes of
/// its input; the contract names those bytes and says nothing more of them.
#[verifier::external_body]
fn md5_compute(data: &[u8]) -> (r: [u8; 16])
    ensures
        r@ == md5_digest(data@),
{
    ::md5::compute(data).0
}

/// The lowercase hexadecimal digit for `d` (0 to 15).
pub open spec fn hex_digit(d: int) -> char {
    if d < 10 {
        ((d + 48) as u8) as char
    } else {
        ((d + 87) as u8) as char
    }
}

/// Two lowercase hexadecimal digits per byte of `b`, most significant first.
pub open spec fn hex_chars(b: Seq<u8>) -> Seq<char>
    decreases b.len(),
{
    if b.len() == 0 {
        Seq::empty()
    } else {
        hex_chars(b.drop_last()) + seq![hex_digit((b.last() / 16) as int), hex_digit((b.last() % 16) as int)]
    }
}

fn hex_str(d: u8) -> (s: &'static str)
    requires
        d < 16,
    ensures
        s@ == seq![hex_digit(d as int)],
{
    proof {
        reveal_strlit("0");
        reveal_strlit("1");
        reveal_strlit("2");
        reveal_strlit("3");
        reveal_strlit("4");
        reveal_strlit("5");
        reveal_strlit("6");
        reveal_strlit("7");
        reveal_strlit("8");
        reveal_strlit("9");
        reveal_strlit("a");
        reveal_strlit("b");
        reveal_strlit("c");
        reveal_strlit("d");
        reveal_strlit("e");
        reveal_strlit("f");
    }
    if d == 0 { "0" } else if d == 1 { "1" } else if d == 2 { "2" } else if d == 3 { "3" }
    else if d == 4 { "4" } else if d == 5 { "5" } else if d == 6 { "6" } else if d == 7 { "7" }
    else if d == 8 { "8" } else if d == 9 { "9" } else if d == 10 { "a" } else if d == 11 { "b" }
    else if d == 12 { "c" } else if d == 13 { "d" } else if d == 14 { "e" } else { "f" }
}

/// The lowercase hexadecimal spelling of `bytes`.
pub fn hex_string(bytes: &[u8]) -> (s: String)
    ensures
        s@ == hex_chars(bytes@),
{
    let mut s = String::new();
    let mut i: usize = 0;
    while i < bytes.len()
        invariant
            i <= bytes@.len(),
            s@ == hex_chars(bytes@.take(i as int)),
        decreases bytes@.len() - i,
    {
        let b = bytes[i];
        s.append(hex_str(b / 16));
        s.append(hex_str(b % 16));
        assert(bytes@.take(i + 1).drop_last() =~= bytes@.take(i as int));
        i += 1;
    }
    assert(bytes@.take(i as int) =~= bytes@);
    s
}

/// Two hexadecimal digits stand for each byte.
pub proof fn lemma_hex_chars_len(b: Seq<u8>)
    ensures
        hex_chars(b).len() == 2 * b.len(),
    decreases b.len(),
{
    if b.len() > 0 {
        lemma_hex_chars_len(b.drop_last());
    }
}

/// The MD5 checksum of `data`, spelled in lowercase hexadecimal: 32 digits.
pub fn md5_hex(data: &[u8]) -> (s: String)
    ensures
        s@ == hex_chars(md5_digest(data@)),
        s@.len() == 32,
{
    let d = md5_compute(data);
    proof {
        lemma_hex_chars_len(d@);
    }
    hex_string(&d)
}

/// The content of one checksum line: stream, timestamps, duration, size and hash text.
pub struct FrameHashView {
    pub stream_index: int,
    pub dts: int,
    pub pts: int,
    pub duration: int,
    pub size: int,
    pub hash: Seq<char>,
}

impl View for AudioFrameHash {
    type V = FrameHashView;

    open spec fn view(&self) -> FrameHashView {
        FrameHashView {
            stream_index: self.stream_index as int,
            dts: self.dts as int,
            pts: self.pts as int,
            duration: self.duration as int,
            size: self.size as int,
            hash: self.hash@,
        }
    }
}

/// The checksum line of the `index`-th decoded image `frame` of stream 0.
pub open spec fn frame_entry(index: int, frame: Seq<u8>) -> FrameHashView {
    FrameHashView {
        stream_index: 0,
        dts: index,
        pts: index,
        duration: 1,
        size: frame.len() as int,
        hash: hex_chars(md5_digest(frame)),
    }
}

/// The content of a listing.
pub open spec fn listing_view(v: Seq<AudioFrameHash>) -> Seq<FrameHashView> {
    v.map_values(|h: AudioFrameHash| h@)
}

/// A listing result reduced to the listing's content or the error's kind.
pub open spec fn listing_outcome(r: Result<Vec<AudioFrameHash>>) -> core::result::Result<Seq<FrameHashView>, Failure> {
    match r {
        Ok(v) => Ok(listing_view(v@)),
        Err(e) => Err(failure(e)),
    }
}

/// The listing of a single decoded image, or the failure that stopped its decoding.
pub open spec fn single_listing(r: core::result::Result<Seq<u8>, Failure>) -> core::result::Result<Seq<FrameHashView>, Failure> {
    match r {
        Ok(frame) => Ok(seq![frame_entry(0, frame)]),
        Err(e) => Err(e),
    }
}

/// The checksum line of the `index`-th decoded image `frame`.
pub fn frame_hash(index: u64, frame: &[u8]) -> (h: AudioFrameHash)
    ensures
        h@ == frame_entry(index as int, frame@),
{
    AudioFrameHash {
        stream_index: 0,
        dts: index,
        pts: index,
        duration: 1,
        size: frame.len(),
        hash: md5_hex(frame),
    }
}

/// The listing of the single image `frame`.
pub fn single_frame_listing(frame: &[u8]) -> (v: Vec<AudioFrameHash>)
    ensures
        listing_view(v@) == seq![frame_entry(0, frame@)],
{
    let v = vec![frame_hash(0, frame)];
    assert(listing_view(v@) =~= seq![frame_entry(0, frame@)]);
    v
}

/// The checksum line of an audio frame of stream 0: `duration` samples from `pts` on,
/// `size` bytes, and the checksum of `payload`.
pub open spec fn audio_entry(pts: int, duration: int, size: int, payload: Seq<u8>) -> FrameHashView {
    FrameHashView {
        stream_index: 0,
        dts: pts,
        pts: pts,
        duration: duration,
        size: size,
        hash: hex_chars(md5_digest(payload)),
    }
}

/// The checksum line of an audio frame.
pub fn audio_frame_hash(pts: u64, duration: u32, size: usize, payload: &[u8]) -> (h: AudioFrameHash)
    ensures
        h@ == audio_entry(pts as int, duration as int, size as int, payload@),
{
    AudioFrameHash {
        stream_index: 0,
        dts: pts,
        pts,
        duration,
        size,
        hash: md5_hex(payload),
    }
}

} // verus!
