use vstd::prelude::*;
use crate::bytes::{sat, sat_add, has_tag, le16, tag_at, u16_le};
use crate::error::{eof, failure, invalid_data, unexpected_eof, unsupported, Failure, Result, RmpegError};
use crate::bytes::append_bytes;
use crate::codec::digest::{hex_chars, md5_digest, md5_hex, listing_view, FrameHashView};
use crate::codec::raster::{concat_rows, lemma_concat_rows_len};
use crate::codec::video::VideoFrameHashDocument;
use crate::metadata::AudioFrameHash;

use crate::error::with_number;

verus! {

/// The data sub-blocks starting at `pos` (each a length byte and that many bytes, ended
/// by a zero length): their bytes laid end to end and the position after the terminator.
pub open spec fn sub_blocks(b: Seq<u8>, pos: int) -> core::result::Result<(Seq<u8>, int), Failure>
    decreases b.len() - pos,
{
    let len = b.len() as int;
    if pos < 0 || pos >= len {
        Err(eof(sat(pos + 1), len))
    } else if b[pos] == 0 {
        Ok((Seq::empty(), pos + 1))
    } else {
        let end = pos + 1 + b[pos];
        if end > len {
            Err(eof(sat(end), len))
        } else {
            match sub_blocks(b, end) {
                Err(e) => Err(e),
                Ok((rest, np)) => Ok((b.subrange(pos + 1, end) + rest, np)),
            }
        }
    }
}

/// Sub-blocks always end past where they start.
pub proof fn lemma_sub_blocks_advance(b: Seq<u8>, pos: int)
    ensures
        sub_blocks(b, pos) matches Ok((_, np)) ==> pos < np <= b.len(),
    decreases b.len() - pos,
{
    if 0 <= pos < b.len() && b[pos] != 0 && pos + 1 + b[pos] <= b.len() {
        lemma_sub_blocks_advance(b, pos + 1 + b[pos]);
    }
}

/// Collects the data sub-blocks starting at `pos`.
fn collect_sub_blocks(bytes: &[u8], pos: usize) -> (r: Result<(Vec<u8>, usize)>)
    ensures
        match r {
            Ok((v, np)) => sub_blocks(bytes@, pos as int) == Ok::<(Seq<u8>, int), Failure>((v@, np as int)),
            Err(e) => sub_blocks(bytes@, pos as int) == Err::<(Seq<u8>, int), Failure>(failure(e)),
        },
{
    let len = bytes.len();
    let mut out: Vec<u8> = Vec::new();
    let mut p = pos;
    while p < len && bytes[p] != 0
        invariant
            len == bytes@.len(),
            p >= pos,
            forall|rest: Seq<u8>, np: int|
                #[trigger] sub_blocks(bytes@, p as int) == Ok::<(Seq<u8>, int), Failure>((rest, np))
                    ==> sub_blocks(bytes@, pos as int) == Ok::<(Seq<u8>, int), Failure>((out@ + rest, np)),
            forall|e: Failure| #[trigger] sub_blocks(bytes@, p as int) == Err::<(Seq<u8>, int), Failure>(e)
                ==> sub_blocks(bytes@, pos as int) == Err::<(Seq<u8>, int), Failure>(e),
        decreases len - p,
    {
        let n = bytes[p] as usize;
        if n > len - p - 1 {
            return Err(unexpected_eof(sat_add(p + 1, n), len));
        }
        let end = p + 1 + n;
        let ghost before = out@;
        let ghost p0 = p as int;
        append_bytes(&mut out, &bytes[p + 1..end]);
        proof {
            assert forall|rest: Seq<u8>, np: int|
                #[trigger] sub_blocks(bytes@, end as int) == Ok::<(Seq<u8>, int), Failure>((rest, np))
                implies sub_blocks(bytes@, pos as int) == Ok::<(Seq<u8>, int), Failure>((out@ + rest, np)) by {
                assert(sub_blocks(bytes@, p0) == Ok::<(Seq<u8>, int), Failure>((bytes@.subrange(p0 + 1, end as int) + rest, np)));
                assert(before + (bytes@.subrange(p0 + 1, end as int) + rest) =~= out@ + rest);
            }
        }
        p = end;
    }
    if p >= len {
        return Err(unexpected_eof(sat_add(p, 1), len));
    }
    proof {
        assert(out@ + Seq::<u8>::empty() =~= out@);
    }
    Ok((out, p + 1))
}

/// A colour table of `n` RGB entries at `pos`, as `3 * n` bytes.
pub open spec fn gif_palette_spec(b: Seq<u8>, pos: int, n: int) -> core::result::Result<Seq<u8>, Failure> {
    if pos + 3 * n > b.len() {
        Err(eof(sat(pos + 3 * n), b.len() as int))
    } else {
        Ok(b.subrange(pos, pos + 3 * n))
    }
}

/// The number of entries of the colour table that the packed byte announces.
pub open spec fn gif_table_entries(packed: u8) -> int {
    two_pow_small(((packed & 7u8) + 1) as int)
}

/// Two to the power `k` for small `k`.
pub open spec fn two_pow_small(k: int) -> int
    decreases k,
{
    if k <= 0 { 1 } else { 2 * two_pow_small(k - 1) }
}

fn gif_table_entries_exec(packed: u8) -> (n: usize)
    ensures
        n == gif_table_entries(packed),
        2 <= n <= 256,
{
    let m = packed & 7;
    assert(m <= 7) by (bit_vector)
        requires
            m == packed & 7,
    ;
    let k = m + 1;
    let mut n: usize = 1;
    let mut j: u8 = 0;
    while j < k
        invariant
            j <= k <= 8,
            n == two_pow_small(j as int),
            1 <= n <= two_pow_small(j as int),
            n <= 256,
            j >= 1 ==> n >= 2,
        decreases k - j,
    {
        proof {
            reveal_with_fuel(two_pow_small, 9);
            if j >= 8 {
            } else {
                lemma_two_pow_small_bound(j as int);
            }
        }
        n = n * 2;
        j += 1;
    }
    n
}

proof fn lemma_two_pow_small_bound(k: int)
    requires
        0 <= k < 8,
    ensures
        two_pow_small(k) <= 128,
    decreases k,
{
    reveal_with_fuel(two_pow_small, 9);
    if k > 0 {
        lemma_two_pow_small_bound(k - 1);
    }
}

fn read_gif_palette(bytes: &[u8], pos: usize, n: usize) -> (r: Result<Vec<u8>>)
    requires
        n <= 256,
    ensures
        match r {
            Ok(v) => gif_palette_spec(bytes@, pos as int, n as int) == Ok::<Seq<u8>, Failure>(v@),
            Err(e) => gif_palette_spec(bytes@, pos as int, n as int) == Err::<Seq<u8>, Failure>(failure(e)),
        },
{
    let len = bytes.len();
    if pos > len || len - pos < 3 * n {
        return Err(unexpected_eof(sat_add(pos, 3 * n), len));
    }
    let mut v: Vec<u8> = Vec::new();
    append_bytes(&mut v, &bytes[pos..pos + 3 * n]);
    Ok(v)
}

/// What a graphic control extension sets for the next image.
#[derive(Clone, Copy, PartialEq, Eq, Structural)]
pub struct GifControl {
    pub delay_centiseconds: u16,
    pub transparent_index: Option<u8>,
    pub disposal_method: u8,
}

/// The control in force when no graphic control extension precedes an image.
pub open spec fn default_control() -> GifControl {
    GifControl { delay_centiseconds: 0, transparent_index: None, disposal_method: 0 }
}

/// A graphic control extension's body at `pos` (after its label): its fields and the
/// position after it.
pub open spec fn gif_gce_spec(b: Seq<u8>, pos: int) -> core::result::Result<(int, GifControl), Failure> {
    let len = b.len() as int;
    if pos < 0 || pos >= len {
        Err(eof(sat(pos + 1), len))
    } else if b[pos] != 4 {
        Err(Failure::InvalidData)
    } else if pos + 6 > len {
        Err(eof(sat(pos + 6), len))
    } else if b[pos + 5] != 0 {
        Err(Failure::InvalidData)
    } else {
        let packed = b[pos + 1];
        Ok((pos + 6, GifControl {
            delay_centiseconds: u16_le(b, pos + 2) as u16,
            transparent_index: if packed & 1u8 != 0 { Some(b[pos + 4]) } else { None },
            disposal_method: (packed >> 2u8) & 7u8,
        }))
    }
}

fn parse_graphic_control(bytes: &[u8], pos: usize) -> (r: Result<(usize, GifControl)>)
    ensures
        match r {
            Ok((np, c)) => gif_gce_spec(bytes@, pos as int) == Ok::<(int, GifControl), Failure>((np as int, c)),
            Err(e) => gif_gce_spec(bytes@, pos as int) == Err::<(int, GifControl), Failure>(failure(e)),
        },
{
    let len = bytes.len();
    if pos >= len {
        return Err(unexpected_eof(sat_add(pos, 1), len));
    }
    if bytes[pos] != 4 {
        return Err(RmpegError::InvalidData(with_number("unexpected GIF graphic control block size ", bytes[pos] as u64)));
    }
    if len - pos < 6 {
        return Err(unexpected_eof(sat_add(pos, 6), len));
    }
    if bytes[pos + 5] != 0 {
        return Err(invalid_data("GIF graphic control extension is not terminated"));
    }
    let packed = bytes[pos + 1];
    let transparent_index = if packed & 1 != 0 { Some(bytes[pos + 4]) } else { None };
    Ok((pos + 6, GifControl {
        delay_centiseconds: le16(bytes, pos + 2),
        transparent_index,
        disposal_method: (packed >> 2) & 7,
    }))
}

/// Bit `p` of `d`, counting from the least significant bit of the first byte.
pub open spec fn lsb_bit(d: Seq<u8>, p: int) -> int {
    ((d[p / 8] >> ((p % 8) as u8)) & 1u8) as int
}

/// The `n`-bit value at bit `pos` of `d`, least significant bit first.
pub open spec fn lsb_bits(d: Seq<u8>, pos: int, n: int) -> int
    decreases n,
{
    if n <= 0 { 0 } else { lsb_bits(d, pos, n - 1) + lsb_bit(d, pos + n - 1) * two_pow_small(n - 1) }
}

/// The decoder state between codes: the next bit, the code size, the next free code,
/// the dictionary, the previous entry and the indexes decoded so far.
pub struct LzwState {
    pub bit: int,
    pub size: int,
    pub next: int,
    pub dict: Seq<Option<Seq<u8>>>,
    pub prev: Option<Seq<u8>>,
    pub out: Seq<u8>,
}

/// The dictionary after a clear code: one single-byte entry per root, then the clear
/// and end codes, which have no entry.
pub open spec fn lzw_initial(clear: int) -> Seq<Option<Seq<u8>>> {
    Seq::new((clear + 2) as nat, |i: int| if i < clear { Some(seq![i as u8]) } else { None })
}

/// The decoded indexes when the code stream ends: exactly `expected` of them.
pub open spec fn lzw_finish(out: Seq<u8>, expected: int) -> core::result::Result<Seq<u8>, Failure> {
    if out.len() != expected { Err(Failure::InvalidData) } else { Ok(out) }
}

/// The entry a code stands for: its dictionary entry, or for the next free code the
/// previous entry followed by its own first byte.
pub open spec fn lzw_entry(s: LzwState, code: int) -> Option<Seq<u8>> {
    if code < s.dict.len() {
        s.dict[code]
    } else if code == s.next {
        match s.prev {
            Some(p) => Some(p.push(p[0])),
            None => None,
        }
    } else {
        None
    }
}

/// The dictionary after entry `e` was output: the previous entry followed by the first
/// byte of `e` takes the next free code, while codes remain.
pub open spec fn lzw_grow(s: LzwState, e: Seq<u8>) -> Seq<Option<Seq<u8>>> {
    if s.prev is Some && s.next < 4096 {
        let base = if s.dict.len() <= s.next {
            s.dict + Seq::new((s.next + 1 - s.dict.len()) as nat, |i: int| None::<Seq<u8>>)
        } else {
            s.dict
        };
        base.update(s.next, Some(s.prev->0.push(e[0])))
    } else {
        s.dict
    }
}

/// Variable-width LZW decoding from state `s` of codes of at least `mcs + 1` bits,
/// expecting `expected` indexes.
pub open spec fn lzw_run(d: Seq<u8>, mcs: int, expected: int, s: LzwState) -> core::result::Result<Seq<u8>, Failure>
    decreases d.len() * 8 - s.bit,
{
    let clear = two_pow_small(mcs);
    if s.size < 1 || s.size > 12 || d.len() * 8 > usize::MAX {
        Err(Failure::InvalidData)
    } else if s.bit < 0 || s.bit + s.size > d.len() * 8 {
        lzw_finish(s.out, expected)
    } else {
        let code = lsb_bits(d, s.bit, s.size);
        let bit2 = s.bit + s.size;
        if code == clear {
            lzw_run(d, mcs, expected, LzwState { bit: bit2, size: mcs + 1, next: clear + 2, dict: lzw_initial(clear), prev: None, out: s.out })
        } else if code == clear + 1 {
            lzw_finish(s.out, expected)
        } else {
            match lzw_entry(s, code) {
                None => Err(Failure::InvalidData),
                Some(e) => {
                    let grow = s.prev is Some && s.next < 4096;
                    let next2 = if grow { s.next + 1 } else { s.next };
                    let size2 = if grow && next2 == two_pow_small(s.size) && s.size < 12 { s.size + 1 } else { s.size };
                    if s.out.len() + e.len() > expected {
                        Err(Failure::InvalidData)
                    } else {
                        lzw_run(d, mcs, expected, LzwState { bit: bit2, size: size2, next: next2, dict: lzw_grow(s, e), prev: Some(e), out: s.out + e })
                    }
                },
            }
        }
    }
}

/// GIF's LZW decoding of `d` with minimum code size `mcs` into `expected` indexes.
pub open spec fn spec_lzw(d: Seq<u8>, mcs: int, expected: int) -> core::result::Result<Seq<u8>, Failure> {
    if !(1 <= mcs <= 8) {
        Err(Failure::Unsupported)
    } else {
        let clear = two_pow_small(mcs);
        lzw_run(d, mcs, expected, LzwState { bit: 0, size: mcs + 1, next: clear + 2, dict: lzw_initial(clear), prev: None, out: Seq::empty() })
    }
}

/// The `n`-bit code at bit `pos`.
fn read_code(d: &[u8], pos: usize, n: usize) -> (v: usize)
    requires
        1 <= n <= 12,
        pos + n <= d@.len() * 8,
        d@.len() * 8 <= usize::MAX,
    ensures
        v == lsb_bits(d@, pos as int, n as int),
        v < two_pow_small(n as int),
{
    let mut v: usize = 0;
    let mut pow: usize = 1;
    let mut k: usize = 0;
    proof {
        lemma_two_pow_small_12();
    }
    while k < n
        invariant
            1 <= n <= 12,
            pos + n <= d@.len() * 8,
            d@.len() * 8 <= usize::MAX,
            k <= n,
            pow == two_pow_small(k as int),
            pow * two_pow_small(12 - k) == 4096,
            v == lsb_bits(d@, pos as int, k as int),
            v < pow,
        decreases n - k,
    {
        let p = pos + k;
        let byte = d[p / 8];
        let bitv = (byte >> ((p % 8) as u8)) & 1;
        assert(bitv <= 1) by (bit_vector)
            requires
                bitv == (byte >> ((p % 8) as u8)) & 1,
        ;
        proof {
            let rest = two_pow_small(11 - k);
            assert(two_pow_small(12 - k) == 2 * rest);
            lemma_two_pow_small_pos(11 - k);
            assert(pow * 2 <= 4096 && (pow * 2) * rest == 4096) by (nonlinear_arith)
                requires
                    pow * (2 * rest) == 4096,
                    rest >= 1,
            ;
            assert((bitv as usize) * pow <= pow) by (nonlinear_arith)
                requires
                    bitv <= 1,
            ;
        }
        v = v + (bitv as usize) * pow;
        pow = pow * 2;
        k += 1;
    }
    v
}

proof fn lemma_two_pow_small_pos(k: int)
    ensures
        two_pow_small(k) >= 1,
    decreases k,
{
    if k > 0 {
        lemma_two_pow_small_pos(k - 1);
    }
}

proof fn lemma_two_pow_small_12()
    ensures
        two_pow_small(12) == 4096,
{
    reveal_with_fuel(two_pow_small, 13);
}

/// The dictionary held as entries and presence flags.
pub open spec fn dict_view(e: Seq<Vec<u8>>, p: Seq<bool>) -> Seq<Option<Seq<u8>>> {
    Seq::new(p.len(), |i: int| if p[i] { Some(e[i]@) } else { None })
}

/// Whether every present entry is nonempty.
pub open spec fn dict_ok(e: Seq<Vec<u8>>, p: Seq<bool>) -> bool {
    &&& e.len() == p.len()
    &&& forall|i: int| 0 <= i < p.len() && #[trigger] p[i] ==> e[i]@.len() >= 1
}

fn two_pow_exec(k: usize) -> (r: usize)
    requires
        k <= 12,
    ensures
        r == two_pow_small(k as int),
        1 <= r <= 4096,
{
    let mut r: usize = 1;
    let mut j: usize = 0;
    proof {
        lemma_two_pow_small_12();
    }
    while j < k
        invariant
            j <= k <= 12,
            r == two_pow_small(j as int),
            r * two_pow_small(12 - j) == 4096,
            r >= 1,
        decreases k - j,
    {
        proof {
            let rest = two_pow_small(11 - j);
            assert(two_pow_small(12 - j) == 2 * rest);
            lemma_two_pow_small_pos(11 - j);
            assert(r * 2 <= 4096 && (r * 2) * rest == 4096) by (nonlinear_arith)
                requires
                    r * (2 * rest) == 4096,
                    rest >= 1,
            ;
        }
        r = r * 2;
        j += 1;
    }
    proof {
        lemma_two_pow_small_pos(12 - k);
        assert(r <= 4096) by (nonlinear_arith)
            requires
                r * two_pow_small(12 - k) == 4096,
                two_pow_small(12 - k) >= 1,
        ;
    }
    r
}

fn copy_bytes(v: &Vec<u8>) -> (r: Vec<u8>)
    ensures
        r@ == v@,
{
    let mut r: Vec<u8> = Vec::new();
    append_bytes(&mut r, v.as_slice());
    r
}

fn lzw_initial_exec(clear: usize) -> (r: (Vec<Vec<u8>>, Vec<bool>))
    requires
        2 <= clear <= 256,
    ensures
        dict_ok(r.0@, r.1@),
        dict_view(r.0@, r.1@) == lzw_initial(clear as int),
{
    let mut e: Vec<Vec<u8>> = Vec::new();
    let mut p: Vec<bool> = Vec::new();
    let mut i: usize = 0;
    while i < clear + 2
        invariant
            2 <= clear <= 256,
            i <= clear + 2,
            e@.len() == i,
            p@.len() == i,
            forall|k: int| 0 <= k < i ==> #[trigger] p@[k] == (k < clear),
            forall|k: int| 0 <= k < i && k < clear ==> #[trigger] e@[k]@ == seq![k as u8],
        decreases clear + 2 - i,
    {
        if i < clear {
            let mut one: Vec<u8> = Vec::new();
            one.push(i as u8);
            assert(one@ =~= seq![i as u8]);
            e.push(one);
            p.push(true);
        } else {
            e.push(Vec::new());
            p.push(false);
        }
        i += 1;
    }
    assert(dict_view(e@, p@) =~= lzw_initial(clear as int));
    assert(dict_ok(e@, p@));
    (e, p)
}

/// GIF's LZW decoding of `data` with minimum code size `minimum_code_size` into
/// `expected_len` palette indexes.
pub fn gif_lzw_decode(data: &[u8], minimum_code_size: u8, expected_len: usize) -> (r: Result<Vec<u8>>)
    ensures
        match r {
            Ok(v) => spec_lzw(data@, minimum_code_size as int, expected_len as int) == Ok::<Seq<u8>, Failure>(v@),
            Err(e) => spec_lzw(data@, minimum_code_size as int, expected_len as int) == Err::<Seq<u8>, Failure>(failure(e)),
        },
        r matches Ok(v) ==> v@.len() == expected_len,
{
    if minimum_code_size < 1 || minimum_code_size > 8 {
        return Err(unsupported("unsupported GIF LZW minimum code size"));
    }
    let mcs = minimum_code_size as usize;
    let clear = two_pow_exec(mcs);
    proof {
        reveal_with_fuel(two_pow_small, 9);
        lemma_two_pow_small_mono(mcs as int, 8);
    }
    if data.len() > usize::MAX / 8 {
        return Err(invalid_data("GIF bitstream size overflow"));
    }
    let total = data.len() * 8;
    let (mut entries, mut present) = lzw_initial_exec(clear);
    let mut size = mcs + 1;
    let mut next = clear + 2;
    let mut bit: usize = 0;
    let mut prev: Vec<u8> = Vec::new();
    let mut has_prev = false;
    let mut out: Vec<u8> = Vec::new();
    while size <= total - bit
        invariant
            1 <= mcs <= 8,
            mcs == minimum_code_size as usize,
            clear == two_pow_small(mcs as int),
            2 <= clear <= 256,
            total == data@.len() * 8,
            total <= usize::MAX,
            2 <= size <= 12,
            next <= 4096,
            bit <= total,
            dict_ok(entries@, present@),
            present@.len() <= 4097,
            has_prev ==> prev@.len() >= 1,
            out@.len() <= expected_len,
            spec_lzw(data@, mcs as int, expected_len as int) == lzw_run(data@, mcs as int, expected_len as int, LzwState {
                bit: bit as int,
                size: size as int,
                next: next as int,
                dict: dict_view(entries@, present@),
                prev: if has_prev { Some(prev@) } else { None },
                out: out@,
            }),
        decreases total - bit,
    {
        let ghost s = LzwState {
            bit: bit as int,
            size: size as int,
            next: next as int,
            dict: dict_view(entries@, present@),
            prev: if has_prev { Some(prev@) } else { None },
            out: out@,
        };
        let code = read_code(data, bit, size);
        bit = bit + size;
        if code == clear {
            let (e2, p2) = lzw_initial_exec(clear);
            entries = e2;
            present = p2;
            size = mcs + 1;
            next = clear + 2;
            has_prev = false;
            continue;
        }
        if code == clear + 1 {
            if out.len() != expected_len {
                return Err(invalid_data("GIF LZW output ended before image was complete"));
            }
            return Ok(out);
        }
        let e: Vec<u8> = if code < entries.len() {
            if present[code] {
                copy_bytes(&entries[code])
            } else {
                assert(lzw_entry(s, code as int) is None);
                return Err(invalid_data("invalid GIF LZW dictionary code"));
            }
        } else if code == next && has_prev {
            let mut e = copy_bytes(&prev);
            e.push(prev[0]);
            e
        } else {
            assert(lzw_entry(s, code as int) is None);
            return Err(invalid_data("invalid GIF LZW code"));
        };
        assert(lzw_entry(s, code as int) == Some(e@));
        assert(e@.len() >= 1);
        assert(s.dict == dict_view(entries@, present@));
        let grow = has_prev && next < 4096;
        if grow {
            let ghost d0 = dict_view(entries@, present@);
            let ghost e0 = entries@;
            let ghost p0 = present@;
            if entries.len() <= next {
                while entries.len() <= next
                    invariant
                        dict_ok(entries@, present@),
                        next < 4096,
                        present@.len() <= next + 1,
                        p0.len() <= present@.len(),
                        d0 == dict_view(e0, p0),
                        forall|k: int| 0 <= k < p0.len() ==> #[trigger] present@[k] == p0[k],
                        forall|k: int| 0 <= k < p0.len() ==> #[trigger] entries@[k] == e0[k],
                        forall|k: int| p0.len() <= k < present@.len() ==> !(#[trigger] present@[k]),
                    decreases next + 1 - entries@.len(),
                {
                    entries.push(Vec::new());
                    present.push(false);
                }
            }
            let mut ne = copy_bytes(&prev);
            ne.push(e[0]);
            let ghost before_set = dict_view(entries@, present@);
            entries.set(next, ne);
            present.set(next, true);
            proof {
                assert(dict_view(entries@, present@) =~= before_set.update(next as int, Some(prev@.push(e@[0]))));
                if d0.len() <= next {
                    assert(before_set =~= d0 + Seq::new((next + 1 - d0.len()) as nat, |i: int| None::<Seq<u8>>));
                } else {
                    assert(before_set =~= d0);
                }
                assert(dict_view(entries@, present@) == lzw_grow(s, e@));
            }
            next = next + 1;
            let lim = two_pow_exec(size);
            if next == lim && size < 12 {
                size = size + 1;
            }
        }
        if e.len() > expected_len - out.len() {
            return Err(invalid_data("GIF LZW output exceeds image size"));
        }
        append_bytes(&mut out, &e);
        prev = e;
        has_prev = true;
    }
    if out.len() != expected_len {
        return Err(invalid_data("GIF LZW output ended before image was complete"));
    }
    Ok(out)
}

proof fn lemma_two_pow_small_mono(a: int, b: int)
    requires
        0 <= a <= b,
    ensures
        two_pow_small(a) <= two_pow_small(b),
    decreases b - a,
{
    if a < b {
        lemma_two_pow_small_mono(a, b - 1);
        lemma_two_pow_small_pos(b - 1);
    }
}

/// The stored row shown as row `r` of an interlaced image of `h` rows: stored rows
/// are every eighth row from 0, every eighth from 4, every fourth from 2, then the odd rows.
pub open spec fn interlace_source_row(h: int, r: int) -> int {
    let n1 = (h + 7) / 8;
    let n2 = (h + 3) / 8;
    let n3 = (h + 1) / 4;
    if r % 8 == 0 { r / 8 } else if r % 8 == 4 { n1 + r / 8 } else if r % 4 == 2 { n1 + n2 + r / 4 } else { n1 + n2 + n3 + r / 2 }
}

/// Interlaced indexes put back in display order.
pub open spec fn spec_deinterlace(idx: Seq<u8>, w: int, h: int) -> core::result::Result<Seq<u8>, Failure> {
    if w * h > usize::MAX || idx.len() != w * h {
        Err(Failure::InvalidData)
    } else {
        Ok(concat_rows(h, |r: int| idx.subrange(interlace_source_row(h, r) * w, interlace_source_row(h, r) * w + w)))
    }
}

fn deinterlace_gif_indexes(idx: &[u8], w: usize, h: usize) -> (r: Result<Vec<u8>>)
    requires
        w <= 0xffff,
        h <= 0xffff,
    ensures
        match r {
            Ok(v) => spec_deinterlace(idx@, w as int, h as int) == Ok::<Seq<u8>, Failure>(v@),
            Err(e) => spec_deinterlace(idx@, w as int, h as int) == Err::<Seq<u8>, Failure>(failure(e)),
        },
        r matches Ok(v) ==> v@.len() == w * h,
{
    assert(w * h <= 0xffff * 0xffff) by (nonlinear_arith)
        requires
            w <= 0xffff,
            h <= 0xffff,
    ;
    if idx.len() != w * h {
        return Err(invalid_data("GIF interlaced image size mismatch"));
    }
    let n1 = (h + 7) / 8;
    let n2 = (h + 3) / 8;
    let n3 = (h + 1) / 4;
    let mut out: Vec<u8> = Vec::new();
    let mut r: usize = 0;
    while r < h
        invariant
            w <= 0xffff,
            h <= 0xffff,
            idx@.len() == w * h,
            w * h <= usize::MAX,
            n1 == (h + 7) / 8,
            n2 == (h + 3) / 8,
            n3 == (h + 1) / 4,
            r <= h,
            out@ == concat_rows(r as int, |r2: int| idx@.subrange(interlace_source_row(h as int, r2) * w, interlace_source_row(h as int, r2) * w + w)),
        decreases h - r,
    {
        let src = if r % 8 == 0 { r / 8 } else if r % 8 == 4 { n1 + r / 8 } else if r % 4 == 2 { n1 + n2 + r / 4 } else { n1 + n2 + n3 + r / 2 };
        assert(src == interlace_source_row(h as int, r as int));
        assert(src < h);
        assert(src * w + w <= w * h) by (nonlinear_arith)
            requires
                src < h,
        ;
        assert(src * w <= src * w + w) by (nonlinear_arith);
        append_bytes(&mut out, &idx[src * w..src * w + w]);
        r += 1;
    }
    proof {
        assert forall|r2: int| 0 <= r2 < h implies #[trigger] idx@.subrange(interlace_source_row(h as int, r2) * w, interlace_source_row(h as int, r2) * w + w).len() == w by {
            let src = interlace_source_row(h as int, r2);
            assert(0 <= src < h);
            assert(src * w + w <= w * h && 0 <= src * w) by (nonlinear_arith)
                requires
                    0 <= src < h,
                    w >= 0,
            ;
        }
        lemma_concat_rows_len(h as int, |r2: int| idx@.subrange(interlace_source_row(h as int, r2) * w, interlace_source_row(h as int, r2) * w + w), w as int);
        assert(h * w == w * h) by (nonlinear_arith);
    }
    Ok(out)
}

/// An image descriptor and its data, as the decoder reads it.
pub struct GifImage {
    pub left: usize,
    pub top: usize,
    pub width: usize,
    pub height: usize,
    pub indexes: Vec<u8>,
    pub local_palette: Option<Vec<u8>>,
    pub next_pos: usize,
}

/// The spec-level content of a `GifImage`.
pub struct GifImageView {
    pub left: int,
    pub top: int,
    pub width: int,
    pub height: int,
    pub indexes: Seq<u8>,
    pub local_palette: Option<Seq<u8>>,
    pub next_pos: int,
}

impl View for GifImage {
    type V = GifImageView;

    open spec fn view(&self) -> GifImageView {
        GifImageView {
            left: self.left as int,
            top: self.top as int,
            width: self.width as int,
            height: self.height as int,
            indexes: self.indexes@,
            local_palette: match self.local_palette { Some(p) => Some(p@), None => None },
            next_pos: self.next_pos as int,
        }
    }
}

/// An image descriptor at `pos` (after its separator): position, size, optional local
/// colour table, then LZW data, deinterlaced when the descriptor says so.
pub open spec fn gif_image_spec(b: Seq<u8>, pos: int) -> core::result::Result<GifImageView, Failure> {
    let len = b.len() as int;
    if pos + 9 > len {
        Err(eof(sat(pos + 9), len))
    } else {
        let w = u16_le(b, pos + 4);
        let h = u16_le(b, pos + 6);
        let packed = b[pos + 8];
        if w == 0 || h == 0 {
            Err(Failure::InvalidData)
        } else {
            let local = if packed & 0x80u8 != 0 {
                match gif_palette_spec(b, pos + 9, gif_table_entries(packed)) {
                    Err(e) => Err(e),
                    Ok(p) => Ok(Some(p)),
                }
            } else {
                Ok(None)
            };
            match local {
                Err(e) => Err(e),
                Ok(lp) => {
                    let dp = if packed & 0x80u8 != 0 { pos + 9 + 3 * gif_table_entries(packed) } else { pos + 9 };
                    if dp >= len {
                        Err(eof(sat(dp + 1), len))
                    } else {
                        match sub_blocks(b, dp + 1) {
                            Err(e) => Err(e),
                            Ok((data, np)) => match spec_lzw(data, b[dp] as int, w * h) {
                                Err(e) => Err(e),
                                Ok(ix) => {
                                    let ix2 = if packed & 0x40u8 != 0 { spec_deinterlace(ix, w, h) } else { Ok(ix) };
                                    match ix2 {
                                        Err(e) => Err(e),
                                        Ok(ix3) => Ok(GifImageView {
                                            left: u16_le(b, pos),
                                            top: u16_le(b, pos + 2),
                                            width: w,
                                            height: h,
                                            indexes: ix3,
                                            local_palette: lp,
                                            next_pos: np,
                                        }),
                                    }
                                },
                            },
                        }
                    }
                },
            }
        }
    }
}

fn parse_image_descriptor(bytes: &[u8], pos: usize) -> (r: Result<GifImage>)
    requires
        pos <= bytes@.len(),
    ensures
        match r {
            Ok(img) => gif_image_spec(bytes@, pos as int) == Ok::<GifImageView, Failure>(img@)
                && img.width <= 0xffff && img.height <= 0xffff && img.left <= 0xffff && img.top <= 0xffff
                && img.indexes@.len() == img.width * img.height,
            Err(e) => gif_image_spec(bytes@, pos as int) == Err::<GifImageView, Failure>(failure(e)),
        },
{
    let len = bytes.len();
    if len - pos < 9 {
        return Err(unexpected_eof(sat_add(pos, 9), len));
    }
    let left = le16(bytes, pos) as usize;
    let top = le16(bytes, pos + 2) as usize;
    let w = le16(bytes, pos + 4) as usize;
    let h = le16(bytes, pos + 6) as usize;
    if w == 0 || h == 0 {
        return Err(invalid_data("GIF image dimensions must be nonzero"));
    }
    let packed = bytes[pos + 8];
    let mut dp = pos + 9;
    let local = if packed & 0x80 != 0 {
        let n = gif_table_entries_exec(packed);
        match read_gif_palette(bytes, dp, n) {
            Err(e) => return Err(e),
            Ok(p) => {
                dp = dp + 3 * n;
                Some(p)
            },
        }
    } else {
        None
    };
    if dp >= len {
        return Err(unexpected_eof(sat_add(dp, 1), len));
    }
    let mcs = bytes[dp];
    let (data, np) = match collect_sub_blocks(bytes, dp + 1) {
        Err(e) => return Err(e),
        Ok(t) => t,
    };
    assert(w * h <= 0xffff * 0xffff) by (nonlinear_arith)
        requires
            w <= 0xffff,
            h <= 0xffff,
    ;
    let ix = match gif_lzw_decode(&data, mcs, w * h) {
        Err(e) => return Err(e),
        Ok(v) => v,
    };
    let ix = if packed & 0x40 != 0 {
        match deinterlace_gif_indexes(&ix, w, h) {
            Err(e) => return Err(e),
            Ok(v) => v,
        }
    } else {
        ix
    };
    Ok(GifImage { left, top, width: w, height: h, indexes: ix, local_palette: local, next_pos: np })
}

/// Colour `k` of the RGB table `pal`, if the table has it.
pub open spec fn table_color(pal: Seq<u8>, k: int) -> Option<(u8, u8, u8)> {
    if 0 <= k && 3 * k + 3 <= pal.len() { Some((pal[3 * k], pal[3 * k + 1], pal[3 * k + 2])) } else { None }
}

/// A BGRA pixel of colour `c` and alpha `a`.
pub open spec fn bgra(c: (u8, u8, u8), a: u8) -> Seq<u8> {
    seq![c.2, c.1, c.0, a]
}

/// The pixel shown where nothing was drawn and there is no background colour.
pub open spec fn transparent_white() -> Seq<u8> {
    seq![255u8, 255, 255, 0]
}

/// The logical screen: its size, global colour table and background colour index.
pub struct GifScreenView {
    pub width: int,
    pub height: int,
    pub global: Option<Seq<u8>>,
    pub background: u8,
}

/// The background colour: the global table's entry at the background index, if any.
pub open spec fn screen_background(scr: GifScreenView) -> Option<(u8, u8, u8)> {
    match scr.global {
        Some(g) => table_color(g, scr.background as int),
        None => None,
    }
}

/// The canvas before any image: the background colour, opaque, or transparent white.
pub open spec fn initial_canvas(scr: GifScreenView) -> Seq<u8> {
    concat_rows(scr.height, |y: int| initial_row(scr))
}

/// A row of the canvas before any image.
pub open spec fn initial_row(scr: GifScreenView) -> Seq<u8> {
    concat_rows(scr.width, |x: int| initial_px(scr))
}

/// A pixel of the canvas before any image.
pub open spec fn initial_px(scr: GifScreenView) -> Seq<u8> {
    match screen_background(scr) {
        Some(c) => bgra(c, 255),
        None => transparent_white(),
    }
}

/// Pixel `(x, y)` of a canvas `w` pixels wide.
pub open spec fn canvas_px(c: Seq<u8>, w: int, y: int, x: int) -> Seq<u8> {
    c.subrange((y * w + x) * 4, (y * w + x) * 4 + 4)
}

/// Whether canvas pixel `(x, y)` lies in the image.
pub open spec fn in_image(img: GifImageView, y: int, x: int) -> bool {
    img.top <= y < img.top + img.height && img.left <= x < img.left + img.width
}

/// The index the image gives canvas pixel `(x, y)`.
pub open spec fn image_index(img: GifImageView, y: int, x: int) -> u8 {
    img.indexes[(y - img.top) * img.width + (x - img.left)]
}

/// Whether the image fits on the canvas.
pub open spec fn fits_canvas(img: GifImageView, w: int, h: int) -> bool {
    img.left + img.width <= w && img.top + img.height <= h
}

/// Whether some pixel the image draws (not the transparent index) has no colour in `pal`.
pub open spec fn has_bad_index(img: GifImageView, pal: Seq<u8>, ctl: GifControl) -> bool {
    exists|p: int| 0 <= p < img.width * img.height && Some(#[trigger] img.indexes[p]) != ctl.transparent_index
        && table_color(pal, img.indexes[p] as int) is None
}

/// Canvas pixel `(x, y)` after drawing the image: its colour where it draws, else unchanged.
pub open spec fn composite_px(c: Seq<u8>, w: int, img: GifImageView, pal: Seq<u8>, ctl: GifControl, y: int, x: int) -> Seq<u8> {
    if in_image(img, y, x) && Some(image_index(img, y, x)) != ctl.transparent_index {
        bgra(table_color(pal, image_index(img, y, x) as int)->0, 255)
    } else {
        canvas_px(c, w, y, x)
    }
}

/// Row `y` of the canvas after drawing the image.
pub open spec fn composite_row(c: Seq<u8>, w: int, img: GifImageView, pal: Seq<u8>, ctl: GifControl, y: int) -> Seq<u8> {
    concat_rows(w, |x: int| composite_px(c, w, img, pal, ctl, y, x))
}

/// The canvas after drawing the image with colour table `pal`.
pub open spec fn spec_composite(c: Seq<u8>, w: int, h: int, img: GifImageView, pal: Seq<u8>, ctl: GifControl) -> core::result::Result<Seq<u8>, Failure> {
    if !fits_canvas(img, w, h) || has_bad_index(img, pal, ctl) {
        Err(Failure::InvalidData)
    } else {
        Ok(concat_rows(h, |y: int| composite_row(c, w, img, pal, ctl, y)))
    }
}

/// Canvas pixel `(x, y)` after the image's area is cleared to the background: the
/// transparent index's colour with zero alpha, else the background colour, else
/// transparent white.
pub open spec fn cleared_px(c: Seq<u8>, scr: GifScreenView, img: GifImageView, pal: Seq<u8>, ctl: GifControl, y: int, x: int) -> Seq<u8> {
    if in_image(img, y, x) {
        let tc = match ctl.transparent_index { Some(t) => table_color(pal, t as int), None => None };
        match tc {
            Some(col) => bgra(col, 0),
            None => match screen_background(scr) {
                Some(col) => bgra(col, 255),
                None => transparent_white(),
            },
        }
    } else {
        canvas_px(c, scr.width, y, x)
    }
}

/// Row `y` of the canvas after the image's area is cleared.
pub open spec fn cleared_row(c: Seq<u8>, scr: GifScreenView, img: GifImageView, pal: Seq<u8>, ctl: GifControl, y: int) -> Seq<u8> {
    concat_rows(scr.width, |x: int| cleared_px(c, scr, img, pal, ctl, y, x))
}

/// The canvas after the image's disposal: its area cleared (method 2), the canvas from
/// before the image restored (method 3), else unchanged.
pub open spec fn spec_dispose(c: Seq<u8>, scr: GifScreenView, img: GifImageView, pal: Seq<u8>, ctl: GifControl, before: Seq<u8>) -> core::result::Result<Seq<u8>, Failure> {
    if ctl.disposal_method == 2 {
        if !fits_canvas(img, scr.width, scr.height) {
            Err(Failure::InvalidData)
        } else {
            Ok(concat_rows(scr.height, |y: int| cleared_row(c, scr, img, pal, ctl, y)))
        }
    } else if ctl.disposal_method == 3 {
        Ok(before)
    } else {
        Ok(c)
    }
}

fn push_bgra(out: &mut Vec<u8>, pal: &[u8], k: usize, a: u8)
    requires
        3 * k + 3 <= pal@.len(),
    ensures
        final(out)@ == old(out)@ + bgra(table_color(pal@, k as int)->0, a),
{
    let n = pal.len();
    out.push(pal[3 * k + 2]);
    out.push(pal[3 * k + 1]);
    out.push(pal[3 * k]);
    out.push(a);
    assert(final(out)@ =~= old(out)@ + bgra(table_color(pal@, k as int)->0, a));
}

fn push_white(out: &mut Vec<u8>)
    ensures
        final(out)@ == old(out)@ + transparent_white(),
{
    out.push(255);
    out.push(255);
    out.push(255);
    out.push(0);
    assert(final(out)@ =~= old(out)@ + transparent_white());
}

/// The bytes of an optional byte vector.
pub open spec fn opt_bytes(o: &Option<Vec<u8>>) -> Option<Seq<u8>> {
    match *o {
        Some(g) => Some(g@),
        None => None,
    }
}

/// The background colour index into `global`, if it has that colour.
fn background_of(global: &Option<Vec<u8>>, bg: u8) -> (r: Option<usize>)
    ensures
        match r {
            Some(k) => (match *global { Some(g) => table_color(g@, bg as int) is Some && k == bg, None => false }),
            None => (match *global { Some(g) => table_color(g@, bg as int) is None, None => true }),
        },
{
    match global {
        Some(g) => if 3 * (bg as usize) + 3 <= g.len() { Some(bg as usize) } else { None },
        None => None,
    }
}

fn gif_initial_canvas(w: usize, h: usize, global: &Option<Vec<u8>>, bg: u8) -> (c: Vec<u8>)
    requires
        w <= 0xffff,
        h <= 0xffff,
    ensures
        c@ == initial_canvas(GifScreenView { width: w as int, height: h as int, global: opt_bytes(global), background: bg }),
        c@.len() == h * (w * 4),
{
    let ghost scr = GifScreenView { width: w as int, height: h as int, global: opt_bytes(global), background: bg };
    let back = background_of(global, bg);
    let mut c: Vec<u8> = Vec::new();
    let mut y: usize = 0;
    while y < h
        invariant
            w <= 0xffff,
            h <= 0xffff,
            y <= h,
            back matches Some(k) ==> (*global matches Some(g) && 3 * k + 3 <= g@.len() && screen_background(scr) == table_color(g@, k as int)),
            back is None ==> screen_background(scr) is None,
            scr.width == w && scr.height == h,
            c@ == concat_rows(y as int, |y2: int| initial_row(scr)),
        decreases h - y,
    {
        let mut row: Vec<u8> = Vec::new();
        let mut x: usize = 0;
        while x < w
            invariant
                w <= 0xffff,
                x <= w,
                back matches Some(k) ==> (*global matches Some(g) && 3 * k + 3 <= g@.len() && screen_background(scr) == table_color(g@, k as int)),
                back is None ==> screen_background(scr) is None,
                row@ == concat_rows(x as int, |x2: int| initial_px(scr)),
            decreases w - x,
        {
            match back {
                Some(k) => {
                    match global {
                        Some(g) => push_bgra(&mut row, g.as_slice(), k, 255),
                        None => {},
                    }
                },
                None => push_white(&mut row),
            }
            x += 1;
        }
        append_bytes(&mut c, &row);
        y += 1;
    }
    proof {
        lemma_concat_rows_len(w as int, |x: int| initial_px(scr), 4);
        lemma_concat_rows_len(h as int, |y2: int| initial_row(scr), w * 4);
    }
    c
}

/// Whether `img` fits on a `w` by `h` canvas.
fn fits(img: &GifImage, w: usize, h: usize) -> (r: bool)
    requires
        img.left <= 0xffff && img.top <= 0xffff && img.width <= 0xffff && img.height <= 0xffff,
    ensures
        r == fits_canvas(img@, w as int, h as int),
{
    img.left + img.width <= w && img.top + img.height <= h
}

fn composite_gif_image(canvas: &Vec<u8>, w: usize, h: usize, img: &GifImage, pal: &Vec<u8>, ctl: GifControl) -> (r: Result<Vec<u8>>)
    requires
        w <= 0xffff,
        h <= 0xffff,
        canvas@.len() == h * (w * 4),
        img.left <= 0xffff && img.top <= 0xffff && img.width <= 0xffff && img.height <= 0xffff,
        img.indexes@.len() == img.width * img.height,
    ensures
        match r {
            Ok(v) => spec_composite(canvas@, w as int, h as int, img@, pal@, ctl) == Ok::<Seq<u8>, Failure>(v@) && v@.len() == h * (w * 4),
            Err(e) => spec_composite(canvas@, w as int, h as int, img@, pal@, ctl) == Err::<Seq<u8>, Failure>(failure(e)),
        },
{
    if !fits(img, w, h) {
        return Err(invalid_data("GIF image lies outside canvas"));
    }
    let n = img.indexes.len();
    let clen = canvas.len();
    let plen = pal.len();
    let mut p: usize = 0;
    while p < n
        invariant
            n == img.indexes@.len(),
            img.indexes@.len() == img.width * img.height,
            plen == pal@.len(),
            p <= n,
            forall|q: int| 0 <= q < p ==> !(Some(#[trigger] img.indexes@[q]) != ctl.transparent_index && table_color(pal@, img.indexes@[q] as int) is None),
        decreases n - p,
    {
        let k = img.indexes[p];
        let transparent = match ctl.transparent_index { Some(t) => t == k, None => false };
        if !transparent && 3 * (k as usize) + 3 > plen {
            assert(Some(img.indexes@[p as int]) != ctl.transparent_index && table_color(pal@, img.indexes@[p as int] as int) is None);
            return Err(invalid_data("GIF palette index is out of range"));
        }
        p += 1;
    }
    assert(!has_bad_index(img@, pal@, ctl));
    let mut out: Vec<u8> = Vec::new();
    let mut y: usize = 0;
    while y < h
        invariant
            w <= 0xffff,
            h <= 0xffff,
            canvas@.len() == h * (w * 4),
            img.left <= 0xffff && img.top <= 0xffff && img.width <= 0xffff && img.height <= 0xffff,
            img.indexes@.len() == img.width * img.height,
            fits_canvas(img@, w as int, h as int),
            !has_bad_index(img@, pal@, ctl),
            plen == pal@.len(),
            y <= h,
            clen == canvas@.len(),
            n == img.indexes@.len(),
            out@ == concat_rows(y as int, |y2: int| composite_row(canvas@, w as int, img@, pal@, ctl, y2)),
        decreases h - y,
    {
        let mut row: Vec<u8> = Vec::new();
        let mut x: usize = 0;
        while x < w
            invariant
                w <= 0xffff,
                h <= 0xffff,
                canvas@.len() == h * (w * 4),
                img.left <= 0xffff && img.top <= 0xffff && img.width <= 0xffff && img.height <= 0xffff,
                img.indexes@.len() == img.width * img.height,
                !has_bad_index(img@, pal@, ctl),
                plen == pal@.len(),
                y < h,
                x <= w,
                clen == canvas@.len(),
                n == img.indexes@.len(),
                row@ == concat_rows(x as int, |x2: int| composite_px(canvas@, w as int, img@, pal@, ctl, y as int, x2)),
            decreases w - x,
        {
            let inside = img.top <= y && y < img.top + img.height && img.left <= x && x < img.left + img.width;
            let mut drawn = false;
            if inside {
                let ry = y - img.top;
                let rx = x - img.left;
                assert(ry * img.width + rx < img.width * img.height) by (nonlinear_arith)
                    requires
                        ry < img.height,
                        rx < img.width,
                ;
                let k = img.indexes[ry * img.width + rx];
                let transparent = match ctl.transparent_index { Some(t) => t == k, None => false };
                if !transparent {
                    assert(!(Some(img.indexes@[ry * img.width + rx]) != ctl.transparent_index && table_color(pal@, img.indexes@[ry * img.width + rx] as int) is None));
                    push_bgra(&mut row, pal.as_slice(), k as usize, 255);
                    drawn = true;
                }
            }
            if !drawn {
                assert((y * w + x) * 4 + 4 <= h * (w * 4)) by (nonlinear_arith)
                    requires
                        y < h,
                        x < w,
                ;
                assert(y * w <= y * w + x) by (nonlinear_arith);
                let o = (y * w + x) * 4;
                append_bytes(&mut row, &canvas.as_slice()[o..o + 4]);
            }
            x += 1;
        }
        append_bytes(&mut out, &row);
        y += 1;
    }
    proof {
        assert forall|yy: int| 0 <= yy < h implies #[trigger] composite_row(canvas@, w as int, img@, pal@, ctl, yy).len() == w * 4 by {
            assert forall|xx: int| 0 <= xx < w implies #[trigger] composite_px(canvas@, w as int, img@, pal@, ctl, yy, xx).len() == 4 by {
                assert((yy * w + xx) * 4 + 4 <= h * (w * 4) && 0 <= (yy * w + xx) * 4) by (nonlinear_arith)
                    requires
                        0 <= yy < h,
                        0 <= xx < w,
                ;
            }
            lemma_concat_rows_len(w as int, |xx: int| composite_px(canvas@, w as int, img@, pal@, ctl, yy, xx), 4);
        }
        lemma_concat_rows_len(h as int, |yy: int| composite_row(canvas@, w as int, img@, pal@, ctl, yy), w * 4);
    }
    Ok(out)
}

fn clear_gif_region(canvas: &Vec<u8>, w: usize, h: usize, global: &Option<Vec<u8>>, bg: u8, img: &GifImage, pal: &Vec<u8>, ctl: GifControl) -> (r: Result<Vec<u8>>)
    requires
        w <= 0xffff,
        h <= 0xffff,
        canvas@.len() == h * (w * 4),
        img.left <= 0xffff && img.top <= 0xffff && img.width <= 0xffff && img.height <= 0xffff,
    ensures
        match r {
            Ok(v) => fits_canvas(img@, w as int, h as int)
                && v@ == concat_rows(h as int, |y: int| cleared_row(canvas@, GifScreenView { width: w as int, height: h as int, global: opt_bytes(global), background: bg }, img@, pal@, ctl, y))
                && v@.len() == h * (w * 4),
            Err(e) => !fits_canvas(img@, w as int, h as int) && failure(e) == Failure::InvalidData,
        },
{
    if !fits(img, w, h) {
        return Err(invalid_data("GIF image lies outside canvas"));
    }
    let ghost scr = GifScreenView { width: w as int, height: h as int, global: opt_bytes(global), background: bg };
    let clen = canvas.len();
    let plen = pal.len();
    let tc: Option<usize> = match ctl.transparent_index {
        Some(t) => if 3 * (t as usize) + 3 <= plen { Some(t as usize) } else { None },
        None => None,
    };
    let back = background_of(global, bg);
    let mut out: Vec<u8> = Vec::new();
    let mut y: usize = 0;
    while y < h
        invariant
            w <= 0xffff,
            h <= 0xffff,
            clen == canvas@.len(),
            canvas@.len() == h * (w * 4),
            img.left <= 0xffff && img.top <= 0xffff && img.width <= 0xffff && img.height <= 0xffff,
            plen == pal@.len(),
            scr.width == w && scr.height == h && scr.global == opt_bytes(global) && scr.background == bg,
            tc matches Some(k) ==> (3 * k + 3 <= pal@.len() && ctl.transparent_index == Some(k as u8) && k < 256),
            tc is None ==> (match ctl.transparent_index { Some(t) => table_color(pal@, t as int) is None, None => true }),
            back matches Some(k) ==> (*global matches Some(g) && 3 * k + 3 <= g@.len() && screen_background(scr) == table_color(g@, k as int)),
            back is None ==> screen_background(scr) is None,
            y <= h,
            out@ == concat_rows(y as int, |y2: int| cleared_row(canvas@, scr, img@, pal@, ctl, y2)),
        decreases h - y,
    {
        let mut row: Vec<u8> = Vec::new();
        let mut x: usize = 0;
        while x < w
            invariant
                w <= 0xffff,
                h <= 0xffff,
                clen == canvas@.len(),
                canvas@.len() == h * (w * 4),
                img.left <= 0xffff && img.top <= 0xffff && img.width <= 0xffff && img.height <= 0xffff,
                plen == pal@.len(),
                scr.width == w && scr.height == h && scr.global == opt_bytes(global) && scr.background == bg,
                tc matches Some(k) ==> (3 * k + 3 <= pal@.len() && ctl.transparent_index == Some(k as u8) && k < 256),
                tc is None ==> (match ctl.transparent_index { Some(t) => table_color(pal@, t as int) is None, None => true }),
                back matches Some(k) ==> (*global matches Some(g) && 3 * k + 3 <= g@.len() && screen_background(scr) == table_color(g@, k as int)),
                back is None ==> screen_background(scr) is None,
                y < h,
                x <= w,
                row@ == concat_rows(x as int, |x2: int| cleared_px(canvas@, scr, img@, pal@, ctl, y as int, x2)),
            decreases w - x,
        {
            let inside = img.top <= y && y < img.top + img.height && img.left <= x && x < img.left + img.width;
            if inside {
                match tc {
                    Some(k) => push_bgra(&mut row, pal.as_slice(), k, 0),
                    None => match back {
                        Some(k) => match global {
                            Some(g) => push_bgra(&mut row, g.as_slice(), k, 255),
                            None => {},
                        },
                        None => push_white(&mut row),
                    },
                }
            } else {
                assert((y * w + x) * 4 + 4 <= h * (w * 4)) by (nonlinear_arith)
                    requires
                        y < h,
                        x < w,
                ;
                assert(y * w <= y * w + x) by (nonlinear_arith);
                let o = (y * w + x) * 4;
                append_bytes(&mut row, &canvas.as_slice()[o..o + 4]);
            }
            x += 1;
        }
        append_bytes(&mut out, &row);
        y += 1;
    }
    proof {
        assert forall|yy: int| 0 <= yy < h implies #[trigger] cleared_row(canvas@, scr, img@, pal@, ctl, yy).len() == w * 4 by {
            assert forall|xx: int| 0 <= xx < w implies #[trigger] cleared_px(canvas@, scr, img@, pal@, ctl, yy, xx).len() == 4 by {
                assert((yy * w + xx) * 4 + 4 <= h * (w * 4) && 0 <= (yy * w + xx) * 4) by (nonlinear_arith)
                    requires
                        0 <= yy < h,
                        0 <= xx < w,
                ;
            }
            lemma_concat_rows_len(w as int, |xx: int| cleared_px(canvas@, scr, img@, pal@, ctl, yy, xx), 4);
        }
        lemma_concat_rows_len(h as int, |yy: int| cleared_row(canvas@, scr, img@, pal@, ctl, yy), w * 4);
    }
    Ok(out)
}

/// One output frame: the canvas after an image was drawn, and the image's delay.
pub struct GifFrameView {
    pub pixels: Seq<u8>,
    pub delay: u16,
}

/// A decoded GIF: the screen size and the frames in order.
pub struct GifDecodedView {
    pub width: int,
    pub height: int,
    pub frames: Seq<GifFrameView>,
}

/// An image's data ends past its descriptor.
pub proof fn lemma_image_advance(b: Seq<u8>, pos: int)
    ensures
        gif_image_spec(b, pos) matches Ok(img) ==> pos < img.next_pos <= b.len(),
{
    let len = b.len() as int;
    if pos + 9 <= len {
        let packed = b[pos + 8];
        let dp = if packed & 0x80u8 != 0 { pos + 9 + 3 * gif_table_entries(packed) } else { pos + 9 };
        if packed & 0x80u8 != 0 {
            lemma_two_pow_small_pos(((packed & 7u8) + 1) as int);
        }
        lemma_sub_blocks_advance(b, dp + 1);
    }
}

/// An extension block at `pos` (its introducer): a graphic control extension gives the
/// control for the next image; other extensions are skipped. Gives the position after it.
pub open spec fn gif_extension(b: Seq<u8>, pos: int, ctl: GifControl) -> core::result::Result<(int, GifControl), Failure> {
    let len = b.len() as int;
    if pos + 1 >= len {
        Err(eof(sat(pos + 2), len))
    } else if b[pos + 1] == 0xF9 {
        gif_gce_spec(b, pos + 2)
    } else {
        match sub_blocks(b, pos + 2) {
            Err(e) => Err(e),
            Ok((_, np)) => Ok((np, ctl)),
        }
    }
}

/// An extension ends past where it starts.
pub proof fn lemma_extension_advance(b: Seq<u8>, pos: int, ctl: GifControl)
    requires
        0 <= pos,
    ensures
        gif_extension(b, pos, ctl) matches Ok((np, _)) ==> pos < np <= b.len(),
{
    lemma_sub_blocks_advance(b, pos + 2);
}

/// An image block at `pos` (its separator) drawn on `canvas`: the position after it,
/// the frame it shows and the canvas after its disposal.
pub open spec fn gif_image_block(b: Seq<u8>, scr: GifScreenView, pos: int, canvas: Seq<u8>, ctl: GifControl)
    -> core::result::Result<(int, Seq<u8>, Seq<u8>), Failure>
{
    match gif_image_spec(b, pos + 1) {
        Err(e) => Err(e),
        Ok(img) => {
            let pal = match img.local_palette { Some(p) => Some(p), None => scr.global };
            match pal {
                None => Err(Failure::InvalidData),
                Some(pal) => match spec_composite(canvas, scr.width, scr.height, img, pal, ctl) {
                    Err(e) => Err(e),
                    Ok(c2) => match spec_dispose(c2, scr, img, pal, ctl, canvas) {
                        Err(e) => Err(e),
                        Ok(c3) => Ok((img.next_pos, c2, c3)),
                    },
                },
            }
        },
    }
}

/// The blocks from `pos` on: extensions, images (each drawn on the canvas, output as a
/// frame, then disposed of), until the trailer or the end of the input.
pub open spec fn gif_blocks(b: Seq<u8>, scr: GifScreenView, pos: int, canvas: Seq<u8>, frames: Seq<GifFrameView>, ctl: GifControl)
    -> core::result::Result<(Seq<u8>, Seq<GifFrameView>), Failure>
    decreases b.len() - pos,
{
    let len = b.len() as int;
    if pos < 0 || pos >= len {
        Ok((canvas, frames))
    } else if b[pos] == 0x21 {
        match gif_extension(b, pos, ctl) {
            Err(e) => Err(e),
            Ok((np, c2)) => {
                proof {
                    lemma_extension_advance(b, pos, ctl);
                }
                gif_blocks(b, scr, np, canvas, frames, c2)
            },
        }
    } else if b[pos] == 0x2C {
        match gif_image_block(b, scr, pos, canvas, ctl) {
            Err(e) => Err(e),
            Ok((np, c2, c3)) => {
                proof {
                    lemma_image_advance(b, pos + 1);
                }
                gif_blocks(b, scr, np, c3, frames.push(GifFrameView { pixels: c2, delay: ctl.delay_centiseconds }), default_control())
            },
        }
    } else if b[pos] == 0x3B {
        Ok((canvas, frames))
    } else {
        Err(Failure::InvalidData)
    }
}

/// The decode result once the blocks are read.
pub open spec fn gif_finish(w: int, h: int, r: core::result::Result<(Seq<u8>, Seq<GifFrameView>), Failure>) -> core::result::Result<GifDecodedView, Failure> {
    match r {
        Err(e) => Err(e),
        Ok((c, frames)) => if c.len() != w * h * 4 {
            Err(Failure::InvalidData)
        } else {
            Ok(GifDecodedView { width: w, height: h, frames })
        },
    }
}

/// The decoded GIF `b`: its logical screen, optional global colour table, then blocks.
pub open spec fn spec_decode_gif(b: Seq<u8>) -> core::result::Result<GifDecodedView, Failure> {
    let len = b.len() as int;
    if !(has_tag(b, 0, seq![0x47u8, 0x49, 0x46, 0x38, 0x37, 0x61]) || has_tag(b, 0, seq![0x47u8, 0x49, 0x46, 0x38, 0x39, 0x61])) {
        Err(Failure::InvalidData)
    } else if len < 13 {
        Err(eof(13, len))
    } else {
        let w = u16_le(b, 6);
        let h = u16_le(b, 8);
        let packed = b[10];
        if w == 0 || h == 0 || w * h * 4 > usize::MAX {
            Err(Failure::InvalidData)
        } else {
            let global = if packed & 0x80u8 != 0 {
                match gif_palette_spec(b, 13, gif_table_entries(packed)) { Err(e) => Err(e), Ok(p) => Ok(Some(p)) }
            } else {
                Ok(None)
            };
            match global {
                Err(e) => Err(e),
                Ok(g) => {
                    let pos = if packed & 0x80u8 != 0 { 13 + 3 * gif_table_entries(packed) } else { 13 };
                    let scr = GifScreenView { width: w, height: h, global: g, background: b[11] };
                    gif_finish(w, h, gif_blocks(b, scr, pos, initial_canvas(scr), Seq::empty(), default_control()))
                },
            }
        }
    }
}

/// One decoded frame.
pub struct GifFrame {
    pub pixels: Vec<u8>,
    pub delay_centiseconds: u16,
}

/// A decoded GIF.
pub struct GifDecoded {
    pub width: usize,
    pub height: usize,
    pub frames: Vec<GifFrame>,
}

/// The content of decoded frames.
pub open spec fn frames_view(s: Seq<GifFrame>) -> Seq<GifFrameView> {
    s.map_values(|f: GifFrame| GifFrameView { pixels: f.pixels@, delay: f.delay_centiseconds })
}

impl View for GifDecoded {
    type V = GifDecodedView;

    open spec fn view(&self) -> GifDecodedView {
        GifDecodedView { width: self.width as int, height: self.height as int, frames: frames_view(self.frames@) }
    }
}

fn gif_extension_step(bytes: &[u8], pos: usize, ctl: GifControl) -> (r: Result<(usize, GifControl)>)
    requires
        pos < bytes@.len(),
    ensures
        match r {
            Ok((np, c)) => gif_extension(bytes@, pos as int, ctl) == Ok::<(int, GifControl), Failure>((np as int, c)),
            Err(e) => gif_extension(bytes@, pos as int, ctl) == Err::<(int, GifControl), Failure>(failure(e)),
        },
{
    let len = bytes.len();
    if len - pos < 2 {
        return Err(unexpected_eof(sat_add(pos, 2), len));
    }
    if bytes[pos + 1] == 0xF9 {
        parse_graphic_control(bytes, pos + 2)
    } else {
        match collect_sub_blocks(bytes, pos + 2) {
            Err(e) => Err(e),
            Ok((_, np)) => Ok((np, ctl)),
        }
    }
}

fn gif_image_step(bytes: &[u8], w: usize, h: usize, global: &Option<Vec<u8>>, bg: u8, pos: usize, canvas: Vec<u8>, ctl: GifControl)
    -> (r: Result<(usize, Vec<u8>, Vec<u8>)>)
    requires
        pos < bytes@.len(),
        w <= 0xffff,
        h <= 0xffff,
        canvas@.len() == h * (w * 4),
    ensures
        match r {
            Ok((np, c2, c3)) => gif_image_block(bytes@, GifScreenView { width: w as int, height: h as int, global: opt_bytes(global), background: bg }, pos as int, canvas@, ctl)
                    == Ok::<(int, Seq<u8>, Seq<u8>), Failure>((np as int, c2@, c3@))
                && c3@.len() == h * (w * 4),
            Err(e) => gif_image_block(bytes@, GifScreenView { width: w as int, height: h as int, global: opt_bytes(global), background: bg }, pos as int, canvas@, ctl)
                == Err::<(int, Seq<u8>, Seq<u8>), Failure>(failure(e)),
        },
{
    let len = bytes.len();
    let img = match parse_image_descriptor(bytes, pos + 1) {
        Err(e) => return Err(e),
        Ok(i) => i,
    };
    let pal: &Vec<u8> = match &img.local_palette {
        Some(p) => p,
        None => match global {
            Some(g) => g,
            None => return Err(invalid_data("GIF image has no palette")),
        },
    };
    let c2 = match composite_gif_image(&canvas, w, h, &img, pal, ctl) {
        Err(e) => return Err(e),
        Ok(c) => c,
    };
    let frame = copy_bytes(&c2);
    let c3 = if ctl.disposal_method == 2 {
        match clear_gif_region(&c2, w, h, global, bg, &img, pal, ctl) {
            Err(e) => return Err(e),
            Ok(c) => c,
        }
    } else if ctl.disposal_method == 3 {
        canvas
    } else {
        c2
    };
    Ok((img.next_pos, frame, c3))
}

/// Decodes every frame of a GIF onto its canvas.
pub fn decode_gif(bytes: &[u8]) -> (r: Result<GifDecoded>)
    ensures
        match r {
            Ok(d) => spec_decode_gif(bytes@) == Ok::<GifDecodedView, Failure>(d@),
            Err(e) => spec_decode_gif(bytes@) == Err::<GifDecodedView, Failure>(failure(e)),
        },
{
    if !(tag_at(bytes, 0, &[0x47u8, 0x49, 0x46, 0x38, 0x37, 0x61]) || tag_at(bytes, 0, &[0x47u8, 0x49, 0x46, 0x38, 0x39, 0x61])) {
        return Err(invalid_data("missing GIF signature"));
    }
    let len = bytes.len();
    if len < 13 {
        return Err(unexpected_eof(13, len));
    }
    let w = le16(bytes, 6) as usize;
    let h = le16(bytes, 8) as usize;
    let packed = bytes[10];
    let bg = bytes[11];
    assert(w * h * 4 <= 0xffff * 0xffff * 4) by (nonlinear_arith)
        requires
            w <= 0xffff,
            h <= 0xffff,
    ;
    if w == 0 || h == 0 || (w as u64) * (h as u64) * 4 > usize::MAX as u64 {
        return Err(invalid_data("GIF canvas size overflow"));
    }
    let mut pos: usize = 13;
    let global: Option<Vec<u8>> = if packed & 0x80 != 0 {
        let n = gif_table_entries_exec(packed);
        match read_gif_palette(bytes, 13, n) {
            Err(e) => return Err(e),
            Ok(p) => {
                pos = 13 + 3 * n;
                Some(p)
            },
        }
    } else {
        None
    };
    let ghost scr = GifScreenView { width: w as int, height: h as int, global: opt_bytes(&global), background: bg };
    let ghost pos0 = pos as int;
    let mut canvas = gif_initial_canvas(w, h, &global, bg);
    let mut frames: Vec<GifFrame> = Vec::new();
    let mut ctl = GifControl { delay_centiseconds: 0, transparent_index: None, disposal_method: 0 };
    assert(frames_view(frames@) =~= Seq::<GifFrameView>::empty());
    proof {
        reveal_with_fuel(has_tag, 1);
    }
    assert(spec_decode_gif(bytes@) == gif_finish(w as int, h as int, gif_blocks(bytes@, scr, pos0, initial_canvas(scr), Seq::empty(), default_control())));
    while pos < len
        invariant
            len == bytes@.len(),
            w <= 0xffff,
            h <= 0xffff,
            1 <= w,
            1 <= h,
            scr.width == w && scr.height == h && scr.global == opt_bytes(&global) && scr.background == bg,
            canvas@.len() == h * (w * 4),
            spec_decode_gif(bytes@) == gif_finish(w as int, h as int, gif_blocks(bytes@, scr, pos as int, canvas@, frames_view(frames@), ctl)),
        decreases len - pos,
    {
        let marker = bytes[pos];
        if marker == 0x21 {
            proof {
                lemma_extension_advance(bytes@, pos as int, ctl);
            }
            match gif_extension_step(bytes, pos, ctl) {
                Err(e) => return Err(e),
                Ok((np, c)) => {
                    pos = np;
                    ctl = c;
                },
            }
        } else if marker == 0x2C {
            proof {
                lemma_image_advance(bytes@, pos + 1);
            }
            let (np, c2, c3) = match gif_image_step(bytes, w, h, &global, bg, pos, canvas, ctl) {
                Err(e) => return Err(e),
                Ok(t) => t,
            };
            let ghost before = frames_view(frames@);
            frames.push(GifFrame { pixels: c2, delay_centiseconds: ctl.delay_centiseconds });
            assert(frames_view(frames@) =~= before.push(GifFrameView { pixels: c2@, delay: ctl.delay_centiseconds }));
            canvas = c3;
            ctl = GifControl { delay_centiseconds: 0, transparent_index: None, disposal_method: 0 };
            pos = np;
        } else if marker == 0x3B {
            pos = len;
        } else {
            return Err(invalid_data("unsupported GIF block marker"));
        }
    }
    if canvas.len() != w * h * 4 {
        return Err(invalid_data("GIF canvas size changed during decode"));
    }
    Ok(GifDecoded { width: w, height: h, frames })
}

/// The greatest common divisor of `a` and `b` (Euclid's algorithm).
pub open spec fn gcd(a: int, b: int) -> int
    decreases b,
{
    if b <= 0 { a } else { gcd(b, a % b) }
}

/// The greatest common divisor of the nonzero delays among the first `n` frames, if any.
pub open spec fn gif_delay_gcd(frames: Seq<GifFrameView>, n: int) -> Option<int>
    decreases n,
{
    if n <= 0 {
        None
    } else {
        let acc = gif_delay_gcd(frames, n - 1);
        let d = frames[n - 1].delay as int;
        if d > 0 {
            Some(match acc { None => d, Some(a) => gcd(a, d) })
        } else {
            acc
        }
    }
}

/// The time base in centiseconds: the common divisor of the delays, or 10 without delays.
pub open spec fn gif_tick(frames: Seq<GifFrameView>) -> int {
    match gif_delay_gcd(frames, frames.len() as int) {
        Some(t) => t,
        None => 10,
    }
}

/// A frame's duration in ticks: its delay rounded up, at least one.
pub open spec fn gif_duration(delay: int, tick: int) -> int {
    if tick == 0 || delay == 0 {
        1
    } else {
        let q = delay / tick + if delay % tick == 0 { 0int } else { 1int };
        if q < 1 { 1 } else { q }
    }
}

/// The listing lines of frames `i` on, the first at time `pts`, times saturating.
pub open spec fn gif_lines(frames: Seq<GifFrameView>, tick: int, i: int, pts: int) -> Seq<FrameHashView>
    decreases frames.len() - i,
{
    if i < 0 || i >= frames.len() {
        Seq::empty()
    } else {
        let d = gif_duration(frames[i].delay as int, tick);
        let line = FrameHashView {
            stream_index: 0,
            dts: pts,
            pts: pts,
            duration: d,
            size: frames[i].pixels.len() as int,
            hash: hex_chars(md5_digest(frames[i].pixels)),
        };
        seq![line] + gif_lines(frames, tick, i + 1, if pts + d > u64::MAX { u64::MAX as int } else { pts + d })
    }
}

/// The content of a video listing.
pub struct VideoListing {
    pub width: int,
    pub height: int,
    pub frame_rate_num: int,
    pub frame_rate_den: int,
    pub frames: Seq<FrameHashView>,
}

/// The frame checksums of a GIF, its frame rate one frame per time base.
pub open spec fn spec_gif_listing(b: Seq<u8>) -> core::result::Result<VideoListing, Failure> {
    match spec_decode_gif(b) {
        Err(e) => Err(e),
        Ok(d) => if d.frames.len() == 0 {
            Err(Failure::InvalidData)
        } else {
            let tick = gif_tick(d.frames);
            let g = gcd(100, tick);
            Ok(VideoListing {
                width: d.width,
                height: d.height,
                frame_rate_num: 100int / g,
                frame_rate_den: tick / g,
                frames: gif_lines(d.frames, tick, 0, 0),
            })
        },
    }
}

/// A video listing result reduced to its content or the error's kind.
pub open spec fn video_listing_outcome(r: Result<VideoFrameHashDocument>) -> core::result::Result<VideoListing, Failure> {
    match r {
        Ok(doc) => Ok(VideoListing {
            width: doc.width as int,
            height: doc.height as int,
            frame_rate_num: doc.frame_rate_num as int,
            frame_rate_den: doc.frame_rate_den as int,
            frames: listing_view(doc.frames@),
        }),
        Err(e) => Err(failure(e)),
    }
}

fn gcd_u32(a: u32, b: u32) -> (r: u32)
    requires
        a > 0,
    ensures
        r == gcd(a as int, b as int),
        0 < r,
{
    let mut x = a;
    let mut y = b;
    while y != 0
        invariant
            x > 0,
            gcd(x as int, y as int) == gcd(a as int, b as int),
        decreases y,
    {
        let t = x % y;
        x = y;
        y = t;
    }
    x
}

/// The frame checksums of an animated GIF: each frame's full canvas as BGRA.
pub fn gif_video_frame_hashes(input: &[u8]) -> (r: Result<VideoFrameHashDocument>)
    ensures
        video_listing_outcome(r) == spec_gif_listing(input@),
{
    let decoded = match decode_gif(input) {
        Err(e) => return Err(e),
        Ok(d) => d,
    };
    let n = decoded.frames.len();
    if n == 0 {
        return Err(invalid_data("GIF did not contain image frames"));
    }
    let ghost fv = frames_view(decoded.frames@);
    let mut acc: Option<u32> = None;
    let mut i: usize = 0;
    while i < n
        invariant
            n == decoded.frames@.len(),
            fv == frames_view(decoded.frames@),
            i <= n,
            match acc { Some(a) => gif_delay_gcd(fv, i as int) == Some(a as int) && a > 0, None => gif_delay_gcd(fv, i as int) is None },
        decreases n - i,
    {
        let d = decoded.frames[i].delay_centiseconds as u32;
        if d > 0 {
            acc = Some(match acc { None => d, Some(a) => gcd_u32(a, d) });
        }
        i += 1;
    }
    let tick: u32 = match acc { Some(t) => t, None => 10 };
    let g = gcd_u32(100, tick);
    let mut frames: Vec<AudioFrameHash> = Vec::new();
    let mut pts: u64 = 0;
    let mut k: usize = 0;
    while k < n
        invariant
            n == decoded.frames@.len(),
            fv == frames_view(decoded.frames@),
            tick == gif_tick(fv),
            k <= n,
            frames@.len() == k,
            listing_view(frames@) + gif_lines(fv, tick as int, k as int, pts as int) == gif_lines(fv, tick as int, 0, 0),
        decreases n - k,
    {
        let f = &decoded.frames[k];
        let delay = f.delay_centiseconds as u32;
        let dur: u32 = if tick == 0 || delay == 0 {
            1
        } else {
            let q = delay / tick + if delay % tick == 0 { 0u32 } else { 1u32 };
            if q < 1 { 1 } else { q }
        };
        let ghost before = listing_view(frames@);
        frames.push(AudioFrameHash {
            stream_index: 0,
            dts: pts,
            pts,
            duration: dur,
            size: f.pixels.len(),
            hash: md5_hex(f.pixels.as_slice()),
        });
        let next = if pts > u64::MAX - dur as u64 { u64::MAX } else { pts + dur as u64 };
        proof {
            assert(listing_view(frames@) =~= before.push(frames@[k as int]@));
            assert(gif_lines(fv, tick as int, k as int, pts as int) =~= seq![frames@[k as int]@] + gif_lines(fv, tick as int, k + 1, next as int));
            assert(listing_view(frames@) + gif_lines(fv, tick as int, k + 1, next as int) =~= before + gif_lines(fv, tick as int, k as int, pts as int));
        }
        pts = next;
        k += 1;
    }
    proof {
        assert(gif_lines(fv, tick as int, n as int, pts as int) =~= Seq::<FrameHashView>::empty());
        assert(listing_view(frames@) =~= listing_view(frames@) + gif_lines(fv, tick as int, n as int, pts as int));
    }
    Ok(VideoFrameHashDocument {
        width: decoded.width as u32,
        height: decoded.height as u32,
        frame_rate_num: 100 / g,
        frame_rate_den: tick / g,
        frames,
    })
}


/// Two to the power of a minimum code size from 2 to 8 is at least 4 and at most 256,
/// doubles with one more bit, and is 4 only for the size 2.
proof fn lemma_code_space(mcs: int)
    requires
        2 <= mcs <= 8,
    ensures
        4 <= two_pow_small(mcs) <= 256,
        two_pow_small(mcs + 1) == 2 * two_pow_small(mcs),
        two_pow_small(mcs + 2) == 4 * two_pow_small(mcs),
        two_pow_small(mcs) == 4 <==> mcs == 2,
{
    reveal_with_fuel(two_pow_small, 10);
}

/// Each dictionary entry that LZW decoding adds is the previous code's string followed
/// by the first index of the current code's string. After a clear code and two root
/// codes `a` and `b`, the first new code stands for `a, b`; sending it adds the second
/// new code, which therefore stands for `b` followed by the first index of `a, b`, that
/// is `b, a`. So the codes clear, `a`, `b`, first new, second new, end decode to
/// `a, b, a, b, b, a`, for every minimum code size from 2 to 8 and every pair of
/// roots. The codes are `mcs + 1` bits wide, except that with a minimum code size of 2
/// the fourth new code fills the 3-bit code space, so the last two codes are 4 bits.
pub proof fn law_lzw_entries_extend_previous_string(d: Seq<u8>, mcs: int, a: int, b: int)
    requires
        2 <= mcs <= 8,
        0 <= a < two_pow_small(mcs),
        0 <= b < two_pow_small(mcs),
        4 * (mcs + 1) + 2 * (if mcs == 2 { mcs + 2 } else { mcs + 1 }) <= d.len() * 8 <= usize::MAX,
        lsb_bits(d, 0, mcs + 1) == two_pow_small(mcs),
        lsb_bits(d, mcs + 1, mcs + 1) == a,
        lsb_bits(d, 2 * (mcs + 1), mcs + 1) == b,
        lsb_bits(d, 3 * (mcs + 1), mcs + 1) == two_pow_small(mcs) + 2,
        lsb_bits(d, 4 * (mcs + 1), if mcs == 2 { mcs + 2 } else { mcs + 1 }) == two_pow_small(mcs) + 3,
        lsb_bits(d, 4 * (mcs + 1) + (if mcs == 2 { mcs + 2 } else { mcs + 1 }), if mcs == 2 { mcs + 2 } else { mcs + 1 })
            == two_pow_small(mcs) + 1,
    ensures
        spec_lzw(d, mcs, 6) == Ok::<Seq<u8>, Failure>(seq![a as u8, b as u8, a as u8, b as u8, b as u8, a as u8]),
{
    lemma_code_space(mcs);
    let c = two_pow_small(mcs);
    let w = mcs + 1;
    let init = lzw_initial(c);
    let s0 = LzwState { bit: 0, size: w, next: c + 2, dict: init, prev: None, out: Seq::empty() };
    let s1 = LzwState { bit: w, size: w, next: c + 2, dict: init, prev: None, out: Seq::empty() };
    assert(lzw_run(d, mcs, 6, s0) == lzw_run(d, mcs, 6, s1));
    let ea = seq![a as u8];
    assert(init[a] == Some(ea));
    assert(lzw_entry(s1, a) == Some(ea));
    assert(lzw_grow(s1, ea) == init);
    let s2 = LzwState { bit: 2 * w, size: w, next: c + 2, dict: init, prev: Some(ea), out: ea };
    assert(lzw_run(d, mcs, 6, s1) == lzw_run(d, mcs, 6, s2));
    let eb = seq![b as u8];
    assert(init[b] == Some(eb));
    assert(lzw_entry(s2, b) == Some(eb));
    let d3 = lzw_grow(s2, eb);
    let ab = seq![a as u8, b as u8];
    assert(ea.push(eb[0]) =~= ab);
    assert(d3.len() == c + 3);
    assert(d3[c + 2] == Some(ab));
    let s3 = LzwState { bit: 3 * w, size: w, next: c + 3, dict: d3, prev: Some(eb), out: ea + eb };
    assert(c + 3 != two_pow_small(w));
    assert(lzw_run(d, mcs, 6, s2) == lzw_run(d, mcs, 6, s3));
    assert(lzw_entry(s3, c + 2) == Some(ab));
    let d4 = lzw_grow(s3, ab);
    let ba = seq![b as u8, a as u8];
    assert(eb.push(ab[0]) =~= ba);
    assert(d4.len() == c + 4);
    assert(d4[c + 3] == Some(ba));
    let w4 = if mcs == 2 { mcs + 2 } else { mcs + 1 };
    assert((c + 4 == two_pow_small(w)) == (mcs == 2));
    let s4 = LzwState { bit: 4 * w, size: w4, next: c + 4, dict: d4, prev: Some(ab), out: ea + eb + ab };
    assert(lzw_run(d, mcs, 6, s3) == lzw_run(d, mcs, 6, s4));
    assert(lzw_entry(s4, c + 3) == Some(ba));
    let s5 = LzwState { bit: 4 * w + w4, size: w4, next: c + 5, dict: lzw_grow(s4, ba), prev: Some(ba), out: ea + eb + ab + ba };
    assert(c + 5 != two_pow_small(w4));
    assert(lzw_run(d, mcs, 6, s4) == lzw_run(d, mcs, 6, s5));
    assert(lzw_run(d, mcs, 6, s5) == lzw_finish(ea + eb + ab + ba, 6));
    assert(ea + eb + ab + ba =~= seq![a as u8, b as u8, a as u8, b as u8, b as u8, a as u8]);
}


/// A code one past the dictionary's last entry (the code the decoder is about to add)
/// stands for the previous code's string followed by that string's own first index.
/// After a clear code, roots `a` and `b` and the first new code (`a, b`), the next free
/// code is sent before it exists and decodes to `a, b, a`; so the codes clear, `a`,
/// `b`, first new, third new, end decode to `a, b, a, b, a, b, a`, for every minimum
/// code size from 2 to 8 and every pair of roots (with the code widths of
/// `law_lzw_entries_extend_previous_string`).
pub proof fn law_lzw_code_before_its_entry(d: Seq<u8>, mcs: int, a: int, b: int)
    requires
        2 <= mcs <= 8,
        0 <= a < two_pow_small(mcs),
        0 <= b < two_pow_small(mcs),
        4 * (mcs + 1) + 2 * (if mcs == 2 { mcs + 2 } else { mcs + 1 }) <= d.len() * 8 <= usize::MAX,
        lsb_bits(d, 0, mcs + 1) == two_pow_small(mcs),
        lsb_bits(d, mcs + 1, mcs + 1) == a,
        lsb_bits(d, 2 * (mcs + 1), mcs + 1) == b,
        lsb_bits(d, 3 * (mcs + 1), mcs + 1) == two_pow_small(mcs) + 2,
        lsb_bits(d, 4 * (mcs + 1), if mcs == 2 { mcs + 2 } else { mcs + 1 }) == two_pow_small(mcs) + 4,
        lsb_bits(d, 4 * (mcs + 1) + (if mcs == 2 { mcs + 2 } else { mcs + 1 }), if mcs == 2 { mcs + 2 } else { mcs + 1 })
            == two_pow_small(mcs) + 1,
    ensures
        spec_lzw(d, mcs, 7) == Ok::<Seq<u8>, Failure>(seq![a as u8, b as u8, a as u8, b as u8, a as u8, b as u8, a as u8]),
{
    lemma_code_space(mcs);
    let c = two_pow_small(mcs);
    let w = mcs + 1;
    let init = lzw_initial(c);
    let s0 = LzwState { bit: 0, size: w, next: c + 2, dict: init, prev: None, out: Seq::empty() };
    let s1 = LzwState { bit: w, size: w, next: c + 2, dict: init, prev: None, out: Seq::empty() };
    assert(lzw_run(d, mcs, 7, s0) == lzw_run(d, mcs, 7, s1));
    let ea = seq![a as u8];
    assert(init[a] == Some(ea));
    assert(lzw_entry(s1, a) == Some(ea));
    assert(lzw_grow(s1, ea) == init);
    let s2 = LzwState { bit: 2 * w, size: w, next: c + 2, dict: init, prev: Some(ea), out: ea };
    assert(lzw_run(d, mcs, 7, s1) == lzw_run(d, mcs, 7, s2));
    let eb = seq![b as u8];
    assert(init[b] == Some(eb));
    assert(lzw_entry(s2, b) == Some(eb));
    let d3 = lzw_grow(s2, eb);
    let ab = seq![a as u8, b as u8];
    assert(ea.push(eb[0]) =~= ab);
    assert(d3.len() == c + 3);
    assert(d3[c + 2] == Some(ab));
    let s3 = LzwState { bit: 3 * w, size: w, next: c + 3, dict: d3, prev: Some(eb), out: ea + eb };
    assert(c + 3 != two_pow_small(w));
    assert(lzw_run(d, mcs, 7, s2) == lzw_run(d, mcs, 7, s3));
    assert(lzw_entry(s3, c + 2) == Some(ab));
    let d4 = lzw_grow(s3, ab);
    assert(d4.len() == c + 4);
    let w4 = if mcs == 2 { mcs + 2 } else { mcs + 1 };
    assert((c + 4 == two_pow_small(w)) == (mcs == 2));
    let s4 = LzwState { bit: 4 * w, size: w4, next: c + 4, dict: d4, prev: Some(ab), out: ea + eb + ab };
    assert(lzw_run(d, mcs, 7, s3) == lzw_run(d, mcs, 7, s4));
    let aba = seq![a as u8, b as u8, a as u8];
    assert(ab.push(ab[0]) =~= aba);
    assert(lzw_entry(s4, c + 4) == Some(aba));
    let s5 = LzwState { bit: 4 * w + w4, size: w4, next: c + 5, dict: lzw_grow(s4, aba), prev: Some(aba), out: ea + eb + ab + aba };
    assert(c + 5 != two_pow_small(w4));
    assert(lzw_run(d, mcs, 7, s4) == lzw_run(d, mcs, 7, s5));
    assert(lzw_run(d, mcs, 7, s5) == lzw_finish(ea + eb + ab + aba, 7));
    assert(ea + eb + ab + aba =~= seq![a as u8, b as u8, a as u8, b as u8, a as u8, b as u8, a as u8]);
}

} // verus!
