use vstd::prelude::*;
use crate::bytes::{be16, be32, sat, sat_add, has_tag, tag_at, u16_be, u32_be};
use crate::error::{eof, invalid_data, outcome, unexpected_eof, unsupported, Failure, Result, RmpegError};
use crate::bytes::append_bytes;
use crate::codec::digest::{listing_outcome, single_frame_listing, single_listing};
use crate::codec::raster::{concat_rows, lemma_mul_bound, lemma_mul_step};
use crate::codec::tga::repeat_bytes;
use crate::metadata::AudioFrameHash;
use crate::error::{with_number, push_decimal};

verus! {

/// The fields of an SGI header that decoding needs.
#[derive(Debug, Clone, Copy, PartialEq, Eq)]
pub struct SgiHeader {
    pub storage: u8,
    pub bytes_per_channel: usize,
    pub width: usize,
    pub height: usize,
    pub channels: usize,
}

/// The header of an SGI image: signature, verbatim or RLE storage, one or two bytes per
/// channel, one to three dimensions, a nonzero size and one to four channels.
pub open spec fn spec_sgi_header(b: Seq<u8>) -> core::result::Result<SgiHeader, Failure> {
    let dims = u16_be(b, 4);
    let w = u16_be(b, 6);
    let h = u16_be(b, 8);
    let ch = u16_be(b, 10);
    if b.len() < 512 {
        Err(eof(512, b.len() as int))
    } else if !has_tag(b, 0, seq![0x01u8, 0xda]) {
        Err(Failure::InvalidData)
    } else if b[2] > 1 {
        Err(Failure::InvalidData)
    } else if b[3] != 1 && b[3] != 2 {
        Err(Failure::InvalidData)
    } else if dims < 1 || dims > 3 {
        Err(Failure::InvalidData)
    } else if w == 0 || h == 0 {
        Err(Failure::InvalidData)
    } else if ch < 1 || ch > 4 {
        Err(Failure::Unsupported)
    } else {
        Ok(SgiHeader { storage: b[2], bytes_per_channel: b[3] as usize, width: w as usize, height: h as usize,
            channels: ch as usize })
    }
}

/// One RLE row decoded from `pos` on, after `acc`, until a zero count: a control value
/// (a byte, or a big-endian 16-bit value for two bytes per channel) whose low seven
/// bits count samples, literal with the high bit set, else one sample repeated; the
/// row must come to `rb` bytes exactly.
pub open spec fn sgi_row(b: Seq<u8>, pos: int, bpc: int, rb: int, acc: Seq<u8>) -> core::result::Result<Seq<u8>, Failure>
    decreases b.len() - pos,
{
    let control = if bpc == 1 { b[pos] as int } else { u16_be(b, pos) };
    let p = pos + bpc;
    let count = control % 128;
    if pos < 0 || bpc < 1 || pos + bpc > b.len() {
        Err(eof(sat(pos + bpc), b.len() as int))
    } else if count == 0 {
        if acc.len() != rb { Err(Failure::InvalidData) } else { Ok(acc) }
    } else if (control / 128) % 2 == 1 {
        if p + count * bpc > b.len() {
            Err(eof(sat(p + count * bpc), b.len() as int))
        } else if acc.len() + count * bpc > rb {
            Err(Failure::InvalidData)
        } else {
            proof {
                assert(count * bpc >= 0) by (nonlinear_arith)
                    requires
                        count >= 0,
                        bpc >= 0,
                ;
            }
            sgi_row(b, p + count * bpc, bpc, rb, acc + b.subrange(p, p + count * bpc))
        }
    } else {
        if p + bpc > b.len() {
            Err(eof(sat(p + bpc), b.len() as int))
        } else if acc.len() + count * bpc > rb {
            Err(Failure::InvalidData)
        } else {
            sgi_row(b, p + bpc, bpc, rb, acc + repeat_bytes(b.subrange(p, p + bpc), count))
        }
    }
}

/// `n` copies of `s` are `n * s.len()` bytes.
pub proof fn lemma_repeat_len(s: Seq<u8>, n: int)
    requires
        0 <= n,
    ensures
        repeat_bytes(s, n).len() == n * s.len(),
    decreases n,
{
    if n > 0 {
        lemma_repeat_len(s, n - 1);
        assert(repeat_bytes(s, n) == repeat_bytes(s, n - 1) + s);
        let a = repeat_bytes(s, n - 1).len() as int;
        let l = s.len() as int;
        assert(a + l == n * l) by (nonlinear_arith)
            requires
                a == (n - 1) * l,
        ;
        assert(repeat_bytes(s, n).len() == a + l);
    } else {
        assert(n * s.len() == 0) by (nonlinear_arith)
            requires
                n == 0,
        ;
    }
}

/// The RLE row that starts at offset `start` of `b`.
pub open spec fn sgi_row_at(b: Seq<u8>, start: int, bpc: int, rb: int) -> core::result::Result<Seq<u8>, Failure> {
    if start > b.len() { Err(eof(start, b.len() as int)) } else { sgi_row(b, start, bpc, rb, Seq::empty()) }
}

/// Rows `r..` of RLE plane `c`, after `acc`: each row starts where the offset table says.
pub open spec fn sgi_rle_plane(b: Seq<u8>, h: SgiHeader, c: int, r: int, acc: Seq<u8>) -> core::result::Result<Seq<u8>, Failure>
    decreases h.height - r,
{
    if r >= h.height {
        Ok(acc)
    } else {
        match sgi_row_at(b, u32_be(b, 512 + (c * h.height + r) * 4), h.bytes_per_channel as int,
            (h.width * h.bytes_per_channel) as int) {
            Err(e) => Err(e),
            Ok(row) => sgi_rle_plane(b, h, c, r + 1, acc + row),
        }
    }
}

/// RLE planes `c..`, after `acc`.
pub open spec fn sgi_rle_planes(b: Seq<u8>, h: SgiHeader, c: int, acc: Seq<Seq<u8>>) -> core::result::Result<Seq<Seq<u8>>, Failure>
    decreases h.channels - c,
{
    if c >= h.channels {
        Ok(acc)
    } else {
        match sgi_rle_plane(b, h, c, 0, Seq::empty()) {
            Err(e) => Err(e),
            Ok(p) => sgi_rle_planes(b, h, c + 1, acc.push(p)),
        }
    }
}

/// The planes of an SGI image, one per channel, each its rows bottom-up: stored one
/// after another verbatim, or decoded from RLE rows through the offset table.
pub open spec fn spec_sgi_planes(b: Seq<u8>, h: SgiHeader) -> core::result::Result<Seq<Seq<u8>>, Failure> {
    let rb = h.width * h.bytes_per_channel;
    let ps = rb * h.height;
    if rb > usize::MAX || ps > usize::MAX {
        Err(Failure::InvalidData)
    } else if h.storage == 0 {
        if ps * h.channels > usize::MAX || 512 + ps * h.channels > usize::MAX {
            Err(Failure::InvalidData)
        } else if 512 + ps * h.channels > b.len() {
            Err(eof(512 + ps * h.channels, b.len() as int))
        } else {
            Ok(Seq::new(h.channels as nat, |c: int| b.subrange(512 + c * ps, 512 + (c + 1) * ps)))
        }
    } else if h.height * h.channels * 8 > usize::MAX || 512 + h.height * h.channels * 8 > usize::MAX {
        Err(Failure::InvalidData)
    } else if 512 + h.height * h.channels * 8 > b.len() {
        Err(eof(512 + h.height * h.channels * 8, b.len() as int))
    } else {
        sgi_rle_planes(b, h, 0, Seq::empty())
    }
}

/// The plane output in place `i` of `n` channels: gray, gray and alpha, or the stored
/// red, green, blue (and alpha) reordered to green, blue, red (and alpha).
pub open spec fn sgi_order(n: int, i: int) -> int {
    if n <= 2 { i } else if i == 0 { 1 } else if i == 1 { 2 } else if i == 2 { 0 } else { 3 }
}

/// Output row `k` of the frame: the planes in output order, each top row first.
pub open spec fn sgi_out_row(planes: Seq<Seq<u8>>, h: SgiHeader, k: int) -> Seq<u8> {
    let rb = (h.width * h.bytes_per_channel) as int;
    let hh = h.height as int;
    let plane = planes[sgi_order(h.channels as int, k / hh)];
    let y = hh - 1 - k % hh;
    plane.subrange(y * rb, y * rb + rb)
}

/// The decoded frame of an SGI image.
pub open spec fn spec_sgi_image(b: Seq<u8>) -> core::result::Result<Seq<u8>, Failure> {
    match spec_sgi_header(b) {
        Err(e) => Err(e),
        Ok(h) => match spec_sgi_planes(b, h) {
            Err(e) => Err(e),
            Ok(planes) => Ok(concat_rows((h.channels * h.height) as int, |k: int| sgi_out_row(planes, h, k))),
        },
    }
}

/// Reads an SGI header.
pub fn sgi_header(bytes: &[u8]) -> (r: Result<SgiHeader>)
    ensures
        outcome(r) == spec_sgi_header(bytes@),
        r is Ok ==> 1 <= r->Ok_0.channels <= 4 && 1 <= r->Ok_0.bytes_per_channel <= 2 && 0 < r->Ok_0.width <= 0xffff
            && 0 < r->Ok_0.height <= 0xffff && r->Ok_0.storage <= 1,
{
    let len = bytes.len();
    if len < 512 {
        return Err(unexpected_eof(512, len));
    }
    if !tag_at(bytes, 0, &[0x01u8, 0xda]) {
        return Err(invalid_data("missing SGI signature"));
    }
    let storage = bytes[2];
    if storage > 1 {
        return Err(RmpegError::InvalidData(with_number("unsupported SGI storage mode ", storage as u64)));
    }
    let bpc = bytes[3];
    if bpc != 1 && bpc != 2 {
        return Err(RmpegError::InvalidData(with_number("unsupported SGI bytes per channel ", bpc as u64)));
    }
    let dims = be16(bytes, 4);
    if dims < 1 || dims > 3 {
        return Err(RmpegError::InvalidData(with_number("unsupported SGI dimension count ", dims as u64)));
    }
    let width = be16(bytes, 6) as usize;
    let height = be16(bytes, 8) as usize;
    let channels = be16(bytes, 10) as usize;
    if width == 0 || height == 0 {
        return Err(invalid_data("SGI dimensions must be nonzero"));
    }
    if channels < 1 || channels > 4 {
        return Err(RmpegError::Unsupported(with_number("unsupported SGI channel count ", channels as u64)));
    }
    Ok(SgiHeader { storage, bytes_per_channel: bpc as usize, width, height, channels })
}

/// Decodes one RLE row starting at `start`.
fn sgi_rle_row(bytes: &[u8], start: usize, bytes_per_channel: usize, row_bytes: usize) -> (r: Result<Vec<u8>>)
    requires
        bytes_per_channel == 1 || bytes_per_channel == 2,
    ensures
        match sgi_row_at(bytes@, start as int, bytes_per_channel as int, row_bytes as int) {
            Ok(f) => r is Ok && r->Ok_0@ == f,
            Err(e) => outcome(r) == Err::<Vec<u8>, Failure>(e),
        },
        r is Ok ==> r->Ok_0@.len() == row_bytes,
{
    let len = bytes.len();
    if start > len {
        return Err(unexpected_eof(start, len));
    }
    let bpc = bytes_per_channel;
    let mut pos = start;
    let mut row: Vec<u8> = Vec::new();
    loop
        invariant
            len == bytes@.len(),
            bpc == bytes_per_channel,
            bpc == 1 || bpc == 2,
            pos <= len,
            row@.len() <= row_bytes,
            sgi_row_at(bytes@, start as int, bpc as int, row_bytes as int)
                == sgi_row(bytes@, pos as int, bpc as int, row_bytes as int, row@),
        decreases len - pos,
    {
        if len - pos < bpc {
            return Err(unexpected_eof(sat_add(pos, bpc), len));
        }
        let control: usize = if bpc == 1 { bytes[pos] as usize } else { be16(bytes, pos) as usize };
        pos = pos + bpc;
        let count = control % 128;
        assert(count * bpc <= 254) by (nonlinear_arith)
            requires
                count < 128,
                bpc <= 2,
        ;
        if count == 0 {
            if row.len() != row_bytes {
                let mut m = with_number("SGI RLE row decoded to ", row.len() as u64);
                m.append(" bytes, expected ");
                push_decimal(&mut m, row_bytes as u64);
                return Err(RmpegError::InvalidData(m));
            }
            return Ok(row);
        }
        let n = count * bpc;
        if (control / 128) % 2 == 1 {
            if len - pos < n {
                return Err(unexpected_eof(sat_add(pos, n), len));
            }
            if n > row_bytes - row.len() {
                return Err(invalid_data("SGI RLE row expands past expected size"));
            }
            append_bytes(&mut row, &bytes[pos..pos + n]);
            pos = pos + n;
        } else {
            if len - pos < bpc {
                return Err(unexpected_eof(sat_add(pos, bpc), len));
            }
            if n > row_bytes - row.len() {
                return Err(invalid_data("SGI RLE row expands past expected size"));
            }
            let sample = &bytes[pos..pos + bpc];
            let ghost before = row@;
            let mut k: usize = 0;
            while k < count
                invariant
                    k <= count,
                    row@ == before + repeat_bytes(sample@, k as int),
                decreases count - k,
            {
                append_bytes(&mut row, sample);
                k = k + 1;
            }
            proof {
                lemma_repeat_len(sample@, count as int);
            }
            pos = pos + bpc;
        }
    }
}

/// Decodes the rows of RLE plane `c`.
fn sgi_rle_plane_exec(bytes: &[u8], header: &SgiHeader, c: usize) -> (r: Result<Vec<u8>>)
    requires
        1 <= header.channels <= 4,
        header.bytes_per_channel == 1 || header.bytes_per_channel == 2,
        0 < header.width <= 0xffff,
        0 < header.height <= 0xffff,
        c < header.channels,
        512 + header.height * header.channels * 8 <= bytes@.len(),
    ensures
        match sgi_rle_plane(bytes@, *header, c as int, 0, Seq::empty()) {
            Ok(p) => r is Ok && r->Ok_0@ == p,
            Err(e) => outcome(r) == Err::<Vec<u8>, Failure>(e),
        },
        r is Ok ==> r->Ok_0@.len() == header.width * header.bytes_per_channel * header.height,
{
    let rb = header.width * header.bytes_per_channel;
    let mut plane: Vec<u8> = Vec::new();
    let mut row: usize = 0;
    while row < header.height
        invariant
            1 <= header.channels <= 4,
            header.bytes_per_channel == 1 || header.bytes_per_channel == 2,
            0 < header.width <= 0xffff,
            0 < header.height <= 0xffff,
            c < header.channels,
            rb == header.width * header.bytes_per_channel,
            512 + header.height * header.channels * 8 <= bytes@.len(),
            row <= header.height,
            plane@.len() == row * rb,
            sgi_rle_plane(bytes@, *header, c as int, 0, Seq::empty()) == sgi_rle_plane(bytes@, *header, c as int, row as int, plane@),
        decreases header.height - row,
    {
        proof {
            lemma_mul_step((row + 1) as int, rb as int);
        }
        assert(c * header.height + row < header.height * header.channels && 512 + (c * header.height + row) * 4 + 4 <= 512 + header.height * header.channels * 8) by (nonlinear_arith)
            requires
                c < header.channels,
                row < header.height,
                header.channels <= 4,
                header.height <= 0xffff,
        ;
        let entry = c * header.height + row;
        let start = be32(bytes, 512 + entry * 4) as usize;
        let decoded = match sgi_rle_row(bytes, start, header.bytes_per_channel, rb) { Ok(d) => d, Err(e) => return Err(e) };
        append_bytes(&mut plane, decoded.as_slice());
        row = row + 1;
    }
    assert(rb * header.height == header.width * header.bytes_per_channel * header.height) by (nonlinear_arith)
        requires
            rb == header.width * header.bytes_per_channel,
    ;
    assert(row * rb == rb * header.height) by (nonlinear_arith)
        requires
            row == header.height,
    ;
    Ok(plane)
}

/// The planes of an SGI image.
fn sgi_planes(bytes: &[u8], header: &SgiHeader) -> (r: Result<Vec<Vec<u8>>>)
    requires
        1 <= header.channels <= 4,
        header.bytes_per_channel == 1 || header.bytes_per_channel == 2,
        0 < header.width <= 0xffff,
        0 < header.height <= 0xffff,
        header.storage <= 1,
    ensures
        match spec_sgi_planes(bytes@, *header) {
            Ok(p) => r is Ok && r->Ok_0@.len() == p.len()
                && forall|c: int| 0 <= c < p.len() ==> #[trigger] r->Ok_0@[c]@ == p[c],
            Err(e) => outcome(r) == Err::<Vec<Vec<u8>>, Failure>(e),
        },
        r is Ok ==> r->Ok_0@.len() == header.channels && header.width * header.bytes_per_channel * header.height <= usize::MAX
            && forall|c: int| 0 <= c < header.channels ==> #[trigger] r->Ok_0@[c]@.len() == header.width * header.bytes_per_channel * header.height,
{
    let len = bytes.len();
    proof {
        lemma_mul_bound(header.width as int, header.bytes_per_channel as int, 0xffff, 2);
    }
    let rb = header.width * header.bytes_per_channel;
    let ps = match rb.checked_mul(header.height) { Some(v) => v, None => return Err(invalid_data("SGI plane size overflow")) };
    let mut planes: Vec<Vec<u8>> = Vec::new();
    if header.storage == 0 {
        let data = match ps.checked_mul(header.channels) { Some(v) => v, None => return Err(invalid_data("SGI data size overflow")) };
        if data > usize::MAX - 512 {
            return Err(invalid_data("SGI data range overflow"));
        }
        if 512 + data > len {
            return Err(unexpected_eof(512 + data, len));
        }
        let mut c: usize = 0;
        while c < header.channels
            invariant
                len == bytes@.len(),
                header.channels <= 4,
                data == ps * header.channels,
                512 + data <= len,
                c <= header.channels,
                planes@.len() == c,
                ps == header.width * header.bytes_per_channel * header.height,
                forall|j: int| 0 <= j < c ==> #[trigger] planes@[j]@ == bytes@.subrange(512 + j * ps, 512 + (j + 1) * ps),
                forall|j: int| 0 <= j < c ==> #[trigger] planes@[j]@.len() == ps,
            decreases header.channels - c,
        {
            proof {
                lemma_mul_bound((c + 1) as int, ps as int, header.channels as int, ps as int);
                lemma_mul_bound(c as int, ps as int, (c + 1) as int, ps as int);
                lemma_mul_step((c + 1) as int, ps as int);
                assert(header.channels * ps == ps * header.channels) by (nonlinear_arith);
            }
            let mut p: Vec<u8> = Vec::new();
            append_bytes(&mut p, &bytes[512 + c * ps..512 + (c + 1) * ps]);
            planes.push(p);
            c = c + 1;
        }
        return Ok(planes);
    }
    assert(header.height * header.channels * 8 <= 0xffff * 4 * 8) by (nonlinear_arith)
        requires
            header.height <= 0xffff,
            header.channels <= 4,
    ;
    let table = header.height * header.channels * 8;
    if 512 + table > len {
        return Err(unexpected_eof(512 + table, len));
    }
    let ghost whole = sgi_rle_planes(bytes@, *header, 0, Seq::empty());
    assert(Seq::new(0, |j: int| planes@[j]@) =~= Seq::<Seq<u8>>::empty());
    let mut c: usize = 0;
    while c < header.channels
        invariant
            1 <= header.channels <= 4,
            header.bytes_per_channel == 1 || header.bytes_per_channel == 2,
            0 < header.width <= 0xffff,
            0 < header.height <= 0xffff,
            512 + header.height * header.channels * 8 <= bytes@.len(),
            c <= header.channels,
            planes@.len() == c,
            header.width * header.bytes_per_channel * header.height <= usize::MAX,
            forall|j: int| 0 <= j < c ==> #[trigger] planes@[j]@.len() == header.width * header.bytes_per_channel * header.height,
            spec_sgi_planes(bytes@, *header) == whole,
            whole == sgi_rle_planes(bytes@, *header, c as int, Seq::new(c as nat, |j: int| planes@[j]@)),
        decreases header.channels - c,
    {
        let p = match sgi_rle_plane_exec(bytes, header, c) { Ok(p) => p, Err(e) => return Err(e) };
        let ghost before = Seq::new(c as nat, |j: int| planes@[j]@);
        planes.push(p);
        assert(Seq::new((c + 1) as nat, |j: int| planes@[j]@) =~= before.push(p@));
        c = c + 1;
    }
    Ok(planes)
}

/// The output order of the planes.
fn sgi_output_order(channels: usize, i: usize) -> (r: usize)
    ensures
        r == sgi_order(channels as int, i as int),
{
    if channels <= 2 { i } else if i == 0 { 1 } else if i == 1 { 2 } else if i == 2 { 0 } else { 3 }
}

/// Lays the planes out in output order, each top row first.
fn sgi_frame(planes: &Vec<Vec<u8>>, header: &SgiHeader, Ghost(sp): Ghost<Seq<Seq<u8>>>) -> (v: Vec<u8>)
    requires
        1 <= header.channels <= 4,
        header.bytes_per_channel == 1 || header.bytes_per_channel == 2,
        0 < header.width <= 0xffff,
        0 < header.height <= 0xffff,
        planes@.len() == header.channels,
        sp.len() == header.channels,
        forall|c: int| 0 <= c < sp.len() ==> #[trigger] planes@[c]@ == sp[c],
        forall|c: int| 0 <= c < sp.len() ==> #[trigger] sp[c].len() == header.width * header.bytes_per_channel * header.height,
        header.width * header.bytes_per_channel * header.height <= usize::MAX,
    ensures
        v@ == concat_rows((header.channels * header.height) as int, |k: int| sgi_out_row(sp, *header, k)),
{
    proof {
        lemma_mul_bound(header.width as int, header.bytes_per_channel as int, 0xffff, 2);
        lemma_mul_bound(header.channels as int, header.height as int, 4, 0xffff);
    }
    let rb = header.width * header.bytes_per_channel;
    let h = header.height;
    let n = header.channels * h;
    assert(rb * h == header.width * header.bytes_per_channel * header.height) by (nonlinear_arith)
        requires
            rb == header.width * header.bytes_per_channel,
            h == header.height,
    ;
    let mut frame: Vec<u8> = Vec::new();
    let mut k: usize = 0;
    while k < n
        invariant
            1 <= header.channels <= 4,
            0 < h <= 0xffff,
            h == header.height,
            rb == header.width * header.bytes_per_channel,
            n == header.channels * h,
            rb <= 0x1fffe,
            rb * h <= usize::MAX,
            planes@.len() == header.channels,
            sp.len() == header.channels,
            forall|c: int| 0 <= c < sp.len() ==> #[trigger] planes@[c]@ == sp[c],
            forall|c: int| 0 <= c < sp.len() ==> #[trigger] sp[c].len() == rb * h,
            k <= n,
            frame@ == concat_rows(k as int, |j: int| sgi_out_row(sp, *header, j)),
        decreases n - k,
    {
        let i = k / h;
        let y = h - 1 - k % h;
        assert(i < header.channels) by (nonlinear_arith)
            requires
                i == k / h,
                k < n,
                n == header.channels * h,
                h > 0,
        ;
        let c = sgi_output_order(header.channels, i);
        proof {
            lemma_mul_bound((y + 1) as int, rb as int, h as int, rb as int);
            lemma_mul_step((y + 1) as int, rb as int);
            assert(h * rb == rb * h) by (nonlinear_arith);
        }
        let plane = &planes[c];
        append_bytes(&mut frame, &plane.as_slice()[y * rb..y * rb + rb]);
        k = k + 1;
    }
    frame
}

/// The frame-checksum listing of an SGI image: one frame.
pub fn sgi_image_frame_hashes(input: &[u8]) -> (r: Result<Vec<AudioFrameHash>>)
    ensures
        listing_outcome(r) == single_listing(spec_sgi_image(input@)),
{
    let header = match sgi_header(input) { Ok(h) => h, Err(e) => return Err(e) };
    let planes = match sgi_planes(input, &header) { Ok(p) => p, Err(e) => return Err(e) };
    let ghost sp = match spec_sgi_planes(input@, header) { Ok(p) => p, Err(_) => Seq::empty() };
    proof {
        assert forall|c: int| 0 <= c < sp.len() implies #[trigger] sp[c].len() == header.width * header.bytes_per_channel * header.height by {
            assert(planes@[c]@ == sp[c]);
        }
    }
    let frame = sgi_frame(&planes, &header, Ghost(sp));
    Ok(single_frame_listing(&frame))
}

} // verus!
