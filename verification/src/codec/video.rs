use vstd::prelude::*;
use crate::error::{eof, failure, invalid_data, unexpected_eof, unsupported, Failure, Result, RmpegError};
use crate::bytes::append_bytes;
use crate::codec::digest::{frame_entry, frame_hash, listing_view, FrameHashView};
use crate::metadata::AudioFrameHash;
use crate::error::push_decimal;
use crate::codec::gif::{video_listing_outcome, VideoListing};

verus! {

/// A video frame-checksum listing: the picture size, the frame rate as a fraction
/// and one line per frame.
#[derive(Debug, Clone, PartialEq, Eq)]
pub struct VideoFrameHashDocument {
    pub width: u32,
    pub height: u32,
    pub frame_rate_num: u32,
    pub frame_rate_den: u32,
    pub frames: Vec<AudioFrameHash>,
}

/// A NAL unit with an Annex B start code before it.
pub open spec fn annex_b(nal: Seq<u8>) -> Seq<u8> {
    seq![0u8, 0, 1] + nal
}

/// NAL units each behind an Annex B start code, in order.
pub open spec fn annex_b_all(nals: Seq<Seq<u8>>) -> Seq<u8>
    decreases nals.len(),
{
    if nals.len() == 0 { Seq::empty() } else { annex_b_all(nals.drop_last()) + annex_b(nals.last()) }
}

/// The big-endian value of the bytes `s`.
pub open spec fn be_value(s: Seq<u8>) -> int
    decreases s.len(),
{
    if s.len() == 0 { 0 } else { be_value(s.drop_last()) * 256 + s.last() }
}

/// A big-endian value is never negative.
pub proof fn lemma_be_value_nonneg(s: Seq<u8>)
    ensures
        be_value(s) >= 0,
    decreases s.len(),
{
    if s.len() > 0 {
        lemma_be_value_nonneg(s.drop_last());
    }
}

/// Where the NAL unit whose `size`-byte length prefix starts at `pos` lies.
pub open spec fn spec_read_nal(p: Seq<u8>, pos: int, size: int) -> core::result::Result<(int, int), Failure> {
    let start = pos + size;
    let end = start + be_value(p.subrange(pos, start));
    if start > usize::MAX {
        Err(Failure::InvalidData)
    } else if start > p.len() {
        Err(eof(start, p.len() as int))
    } else if end > usize::MAX {
        Err(Failure::InvalidData)
    } else if end > p.len() {
        Err(eof(end, p.len() as int))
    } else {
        Ok((start, end))
    }
}

/// The Annex B stream of the length-prefixed NAL units of `p` from `pos` on, after
/// `acc`: each non-empty unit behind a start code, and before the first IDR slice the
/// stored parameter sets, unless the packet has given both kinds itself or they were
/// already put in.
pub open spec fn annex_b_from(p: Seq<u8>, size: int, sps: Seq<Seq<u8>>, pps: Seq<Seq<u8>>, pos: int, saw_sps: bool, saw_pps: bool, injected: bool, acc: Seq<u8>) -> core::result::Result<Seq<u8>, Failure>
    decreases (if pos < p.len() { p.len() - pos } else { 0 }),
{
    if pos < 0 || pos >= p.len() || size <= 0 {
        Ok(acc)
    } else {
        match spec_read_nal(p, pos, size) {
            Err(e) => Err(e),
            Ok(r) => {
                proof {
                    lemma_be_value_nonneg(p.subrange(pos, pos + size));
                }
                let nal = p.subrange(r.0, r.1);
                let t = if nal.len() > 0 { nal[0] % 32 } else { 0 };
                if nal.len() == 0 {
                    annex_b_from(p, size, sps, pps, r.1, saw_sps, saw_pps, injected, acc)
                } else if t == 5 && !(injected || (saw_sps && saw_pps)) {
                    annex_b_from(p, size, sps, pps, r.1, saw_sps, saw_pps, true, acc + annex_b_all(sps) + annex_b_all(pps) + annex_b(nal))
                } else if t == 7 {
                    annex_b_from(p, size, sps, pps, r.1, true, saw_pps, injected, acc + annex_b(nal))
                } else if t == 8 {
                    annex_b_from(p, size, sps, pps, r.1, saw_sps, true, injected, acc + annex_b(nal))
                } else {
                    annex_b_from(p, size, sps, pps, r.1, saw_sps, saw_pps, injected, acc + annex_b(nal))
                }
            },
        }
    }
}

/// Parameter sets by their bytes.
pub open spec fn nal_list_view(v: Seq<Vec<u8>>) -> Seq<Seq<u8>> {
    v.map_values(|n: Vec<u8>| n@)
}

/// Turns the length-prefixed H.264 packets of an MP4 track into an Annex B stream.
pub struct Mp4H264BitstreamConverter {
    length_size: usize,
    sps: Vec<Vec<u8>>,
    pps: Vec<Vec<u8>>,
}

impl Mp4H264BitstreamConverter {
    /// The length prefix is 1, 2 or 4 bytes, and there is at least one parameter set of
    /// each kind.
    #[verifier::type_invariant]
    spec fn well_formed(self) -> bool {
        &&& (self.length_size == 1 || self.length_size == 2 || self.length_size == 4)
        &&& self.sps@.len() > 0
        &&& self.pps@.len() > 0
    }

    /// The size of the length prefixes.
    pub closed spec fn prefix_size(&self) -> int {
        self.length_size as int
    }

    /// The sequence parameter sets put in before an IDR slice.
    pub closed spec fn sps_view(&self) -> Seq<Seq<u8>> {
        nal_list_view(self.sps@)
    }

    /// The picture parameter sets put in before an IDR slice.
    pub closed spec fn pps_view(&self) -> Seq<Seq<u8>> {
        nal_list_view(self.pps@)
    }

    /// A converter for `length_size`-byte prefixes and the given parameter sets.
    pub fn new(length_size: usize, sps: Vec<Vec<u8>>, pps: Vec<Vec<u8>>) -> (r: Result<Self>)
        ensures
            !(length_size == 1 || length_size == 2 || length_size == 4) ==> r is Err && failure(r->Err_0) == Failure::InvalidData,
            (length_size == 1 || length_size == 2 || length_size == 4) && (sps@.len() == 0 || pps@.len() == 0) ==> r is Err && failure(r->Err_0) == Failure::InvalidData,
            (length_size == 1 || length_size == 2 || length_size == 4) && sps@.len() > 0 && pps@.len() > 0 ==> r is Ok
                && r->Ok_0.prefix_size() == length_size && r->Ok_0.sps_view() == nal_list_view(sps@) && r->Ok_0.pps_view() == nal_list_view(pps@),
    {
        if !(length_size == 1 || length_size == 2 || length_size == 4) {
            return Err(invalid_data("invalid H264 MP4 NAL length size"));
        }
        if sps.len() == 0 || pps.len() == 0 {
            return Err(invalid_data("missing H264 MP4 parameter sets"));
        }
        Ok(Mp4H264BitstreamConverter { length_size, sps, pps })
    }

    /// Writes the Annex B form of `packet` to `out`, replacing what it held.
    pub fn convert_packet(&self, packet: &[u8], out: &mut Vec<u8>) -> (r: Result<()>)
        ensures
            match annex_b_from(packet@, self.prefix_size(), self.sps_view(), self.pps_view(), 0, false, false, false, Seq::empty()) {
                Ok(s) => r is Ok && final(out)@ == s,
                Err(e) => r is Err && failure(r->Err_0) == e,
            },
    {
        proof {
            use_type_invariant(self);
        }
        out.clear();
        let len = packet.len();
        let size = self.length_size;
        let mut pos: usize = 0;
        let mut saw_sps = false;
        let mut saw_pps = false;
        let mut injected = false;
        while pos < len
            invariant
                len == packet@.len(),
                size == self.prefix_size(),
                size == 1 || size == 2 || size == 4,
                annex_b_from(packet@, self.prefix_size(), self.sps_view(), self.pps_view(), 0, false, false, false, Seq::empty())
                    == annex_b_from(packet@, size as int, self.sps_view(), self.pps_view(), pos as int, saw_sps, saw_pps, injected, out@),
            decreases len - pos,
        {
            let (start, end) = match read_length_prefixed_nal(packet, pos, size) { Ok(v) => v, Err(e) => return Err(e) };
            let nal = &packet[start..end];
            pos = end;
            if nal.len() == 0 {
                continue;
            }
            let t = nal[0] % 32;
            if t == 5 && !(injected || (saw_sps && saw_pps)) {
                append_annex_b_nals(out, &self.sps);
                append_annex_b_nals(out, &self.pps);
                injected = true;
                append_annex_b_nal(out, nal);
            } else if t == 7 {
                saw_sps = true;
                append_annex_b_nal(out, nal);
            } else if t == 8 {
                saw_pps = true;
                append_annex_b_nal(out, nal);
            } else {
                append_annex_b_nal(out, nal);
            }
        }
        Ok(())
    }
}

/// Where the NAL unit whose `length_size`-byte length prefix starts at `pos` lies: its
/// first byte and the end of it, which is where the next prefix starts.
pub fn read_length_prefixed_nal(packet: &[u8], pos: usize, length_size: usize) -> (r: Result<(usize, usize)>)
    requires
        length_size == 1 || length_size == 2 || length_size == 4,
    ensures
        match spec_read_nal(packet@, pos as int, length_size as int) {
            Ok(v) => r is Ok && r->Ok_0.0 == v.0 && r->Ok_0.1 == v.1,
            Err(e) => r is Err && failure(r->Err_0) == e,
        },
        r is Ok ==> pos + length_size <= r->Ok_0.0 <= r->Ok_0.1 <= packet@.len(),
{
    let len = packet.len();
    if pos > usize::MAX - length_size {
        return Err(invalid_data("H264 packet length offset overflow"));
    }
    let len_end = pos + length_size;
    if len_end > len {
        return Err(unexpected_eof(len_end, len));
    }
    let mut nal_len: usize = 0;
    let mut i = pos;
    while i < len_end
        invariant
            pos <= i <= len_end <= len == packet@.len(),
            len_end == pos + length_size,
            length_size <= 4,
            nal_len == be_value(packet@.subrange(pos as int, i as int)),
            i - pos == 0 ==> nal_len == 0,
            i - pos == 1 ==> nal_len < 0x100,
            i - pos == 2 ==> nal_len < 0x1_0000,
            i - pos == 3 ==> nal_len < 0x100_0000,
            nal_len < 0x1_0000_0000,
        decreases len_end - i,
    {
        proof {
            assert(packet@.subrange(pos as int, i + 1).drop_last() =~= packet@.subrange(pos as int, i as int));
        }
        nal_len = nal_len * 256 + packet[i] as usize;
        i = i + 1;
    }
    if nal_len > usize::MAX - len_end {
        return Err(invalid_data("H264 NAL offset overflow"));
    }
    let nal_end = len_end + nal_len;
    if nal_end > len {
        return Err(unexpected_eof(nal_end, len));
    }
    Ok((len_end, nal_end))
}

/// Appends `nal` behind an Annex B start code.
pub fn append_annex_b_nal(out: &mut Vec<u8>, nal: &[u8])
    ensures
        final(out)@ == old(out)@ + annex_b(nal@),
{
    out.push(0);
    out.push(0);
    out.push(1);
    append_bytes(out, nal);
    assert(old(out)@ + annex_b(nal@) =~= old(out)@.push(0).push(0).push(1) + nal@);
}

/// Appends each of `nals` behind an Annex B start code.
fn append_annex_b_nals(out: &mut Vec<u8>, nals: &Vec<Vec<u8>>)
    ensures
        final(out)@ == old(out)@ + annex_b_all(nal_list_view(nals@)),
{
    let mut i: usize = 0;
    while i < nals.len()
        invariant
            i <= nals@.len(),
            out@ == old(out)@ + annex_b_all(nal_list_view(nals@.take(i as int))),
        decreases nals@.len() - i,
    {
        append_annex_b_nal(out, nals[i].as_slice());
        assert(nal_list_view(nals@.take(i + 1)).drop_last() =~= nal_list_view(nals@.take(i as int)));
        assert(nal_list_view(nals@.take(i + 1)).last() == nals@[i as int]@);
        i = i + 1;
    }
    assert(nals@.take(i as int) =~= nals@);
}

/// A decoded picture in YUV 4:2:0: its size, the stride of each plane, and the planes.
pub struct Yuv420Picture<'a> {
    pub width: usize,
    pub height: usize,
    pub y_stride: usize,
    pub u_stride: usize,
    pub v_stride: usize,
    pub y: &'a [u8],
    pub u: &'a [u8],
    pub v: &'a [u8],
}

/// Rows `row..height` of a plane, `width` bytes each, `stride` bytes apart, after `acc`.
pub open spec fn plane_rows(plane: Seq<u8>, width: int, stride: int, row: int, height: int, acc: Seq<u8>) -> core::result::Result<Seq<u8>, Failure>
    decreases height - row,
{
    let start = row * stride;
    let end = start + width;
    if row >= height {
        Ok(acc)
    } else if start > usize::MAX || end > usize::MAX {
        Err(Failure::InvalidData)
    } else if end > plane.len() {
        Err(eof(end, plane.len() as int))
    } else {
        plane_rows(plane, width, stride, row + 1, height, acc + plane.subrange(start, end))
    }
}

/// The picture packed without padding: the luma rows, then each chroma plane at half
/// the width and height.
pub open spec fn spec_pack_yuv420p(p: Yuv420Picture) -> core::result::Result<Seq<u8>, Failure> {
    let w = p.width as int;
    let h = p.height as int;
    if w % 2 != 0 || h % 2 != 0 {
        Err(Failure::Unsupported)
    } else if w * h > usize::MAX {
        Err(Failure::InvalidData)
    } else {
        match plane_rows(p.y@, w, p.y_stride as int, 0, h, Seq::empty()) {
            Err(e) => Err(e),
            Ok(a) => match plane_rows(p.u@, w / 2, p.u_stride as int, 0, h / 2, a) {
                Err(e) => Err(e),
                Ok(b) => plane_rows(p.v@, w / 2, p.v_stride as int, 0, h / 2, b),
            },
        }
    }
}

/// Appends `height` rows of `width` bytes, `stride` bytes apart, of `plane`.
pub fn append_plane_rows(plane: &[u8], width: usize, height: usize, stride: usize, out: &mut Vec<u8>) -> (r: Result<()>)
    ensures
        match plane_rows(plane@, width as int, stride as int, 0, height as int, old(out)@) {
            Ok(s) => r is Ok && final(out)@ == s,
            Err(e) => r is Err && failure(r->Err_0) == e,
        },
{
    let len = plane.len();
    let mut row: usize = 0;
    while row < height
        invariant
            len == plane@.len(),
            row <= height,
            plane_rows(plane@, width as int, stride as int, 0, height as int, old(out)@)
                == plane_rows(plane@, width as int, stride as int, row as int, height as int, out@),
        decreases height - row,
    {
        let start = match row.checked_mul(stride) { Some(v) => v, None => return Err(invalid_data("video plane offset overflow")) };
        let end = match start.checked_add(width) { Some(v) => v, None => return Err(invalid_data("video plane row overflow")) };
        if end > len {
            return Err(unexpected_eof(end, len));
        }
        append_bytes(out, &plane[start..end]);
        row = row + 1;
    }
    Ok(())
}

/// The picture packed as planar YUV 4:2:0 without padding.
pub fn pack_yuv420p(image: &Yuv420Picture) -> (r: Result<Vec<u8>>)
    ensures
        match spec_pack_yuv420p(*image) {
            Ok(s) => r is Ok && r->Ok_0@ == s,
            Err(e) => r is Err && failure(r->Err_0) == e,
        },
{
    let w = image.width;
    let h = image.height;
    if w % 2 != 0 || h % 2 != 0 {
        return Err(unsupported("decoded H264 frame dimensions are not YUV420-compatible"));
    }
    if w.checked_mul(h).is_none() {
        return Err(invalid_data("video frame dimensions overflow"));
    }
    let mut out: Vec<u8> = Vec::new();
    match append_plane_rows(image.y, w, h, image.y_stride, &mut out) { Ok(()) => {}, Err(e) => return Err(e) }
    match append_plane_rows(image.u, w / 2, h / 2, image.u_stride, &mut out) { Ok(()) => {}, Err(e) => return Err(e) }
    match append_plane_rows(image.v, w / 2, h / 2, image.v_stride, &mut out) { Ok(()) => {}, Err(e) => return Err(e) }
    Ok(out)
}

/// Packs a decoded picture and appends its checksum line, after checking that it has
/// the size the track declared.
pub fn push_yuv420p_frame_hash(image: &Yuv420Picture, expected_width: u32, expected_height: u32, frames: &mut Vec<AudioFrameHash>) -> (r: Result<()>)
    ensures
        match spec_pack_yuv420p(*image) {
            Err(e) => r is Err && failure(r->Err_0) == e,
            Ok(f) => if image.width != expected_width || image.height != expected_height {
                r is Err && failure(r->Err_0) == Failure::Unsupported
            } else {
                r is Ok && listing_view(final(frames)@) == listing_view(old(frames)@).push(frame_entry(old(frames)@.len() as int, f))
            },
        },
{
    let frame = match pack_yuv420p(image) { Ok(f) => f, Err(e) => return Err(e) };
    if image.width != expected_width as usize || image.height != expected_height as usize {
        let mut m = String::from_str("decoded H264 dimensions changed from ");
        push_decimal(&mut m, expected_width as u64);
        m.append("x");
        push_decimal(&mut m, expected_height as u64);
        m.append(" to ");
        push_decimal(&mut m, image.width as u64);
        m.append("x");
        push_decimal(&mut m, image.height as u64);
        return Err(RmpegError::Unsupported(m));
    }
    let pts = frames.len() as u64;
    let ghost before = frames@;
    frames.push(frame_hash(pts, frame.as_slice()));
    assert(listing_view(frames@) =~= listing_view(before).push(frame_entry(before.len() as int, frame@)));
    Ok(())
}


/// The checksum lines of decoded pictures `i..` of an H.264 stream after `acc`: each
/// packed, and each required to have the stream's size.
pub open spec fn h264_lines(ps: Seq<Yuv420Picture>, w: int, h: int, i: int, acc: Seq<FrameHashView>) -> core::result::Result<Seq<FrameHashView>, Failure>
    decreases ps.len() - i,
{
    if i >= ps.len() || i < 0 {
        Ok(acc)
    } else {
        match spec_pack_yuv420p(ps[i]) {
            Err(e) => Err(e),
            Ok(f) => if ps[i].width != w || ps[i].height != h {
                Err(Failure::Unsupported)
            } else {
                h264_lines(ps, w, h, i + 1, acc.push(frame_entry(acc.len() as int, f)))
            },
        }
    }
}

/// The listing of an H.264 stream from its decoded pictures: one line per picture, and
/// invalid data where nothing was decoded.
pub open spec fn spec_h264_document(ps: Seq<Yuv420Picture>, width: u32, height: u32, rate_num: u32, rate_den: u32) -> core::result::Result<VideoListing, Failure> {
    match h264_lines(ps, width as int, height as int, 0, Seq::empty()) {
        Err(e) => Err(e),
        Ok(lines) => if lines.len() == 0 {
            Err(Failure::InvalidData)
        } else {
            Ok(VideoListing {
                width: width as int,
                height: height as int,
                frame_rate_num: rate_num as int,
                frame_rate_den: rate_den as int,
                frames: lines,
            })
        },
    }
}

/// Builds the listing of an H.264 stream of `width` by `height` at the given frame rate
/// from the pictures its decoder put out, in order.
pub fn mp4_h264_document_from(width: u32, height: u32, frame_rate_num: u32, frame_rate_den: u32, pictures: &[Yuv420Picture]) -> (r: Result<VideoFrameHashDocument>)
    ensures
        video_listing_outcome(r) == spec_h264_document(pictures@, width, height, frame_rate_num, frame_rate_den),
{
    let ghost ps = pictures@;
    let mut frames: Vec<AudioFrameHash> = Vec::new();
    let mut i: usize = 0;
    assert(listing_view(frames@) =~= Seq::<FrameHashView>::empty());
    while i < pictures.len()
        invariant
            ps == pictures@,
            i <= ps.len(),
            h264_lines(ps, width as int, height as int, i as int, listing_view(frames@))
                == h264_lines(ps, width as int, height as int, 0, Seq::empty()),
        decreases ps.len() - i,
    {
        let ghost before = listing_view(frames@);
        assert(before.len() == frames@.len());
        match push_yuv420p_frame_hash(&pictures[i], width, height, &mut frames) {
            Ok(()) => {},
            Err(e) => return Err(e),
        }
        i = i + 1;
    }
    assert(listing_view(frames@).len() == frames@.len());
    if frames.len() == 0 {
        return Err(invalid_data("OpenH264 did not produce decoded frames"));
    }
    Ok(VideoFrameHashDocument { width, height, frame_rate_num, frame_rate_den, frames })
}

} // verus!
