use vstd::prelude::*;
use crate::bytes::tag_at;

verus! {

/// The length of the well-formed UTF-8 sequence that starts at `i`, or 0 if none does.
pub open spec fn utf8_char_len(b: Seq<u8>, i: int) -> int {
    let n = b.len() as int;
    let c = b[i];
    let cont = |k: int| i + k < n && 0x80 <= b[i + k] <= 0xbf;
    if i < 0 || i >= n {
        0
    } else if c <= 0x7f {
        1
    } else if 0xc2 <= c <= 0xdf {
        if cont(1) { 2 } else { 0 }
    } else if c == 0xe0 {
        if cont(1) && b[i + 1] >= 0xa0 && cont(2) { 3 } else { 0 }
    } else if c == 0xed {
        if cont(1) && b[i + 1] <= 0x9f && cont(2) { 3 } else { 0 }
    } else if 0xe1 <= c <= 0xef {
        if cont(1) && cont(2) { 3 } else { 0 }
    } else if c == 0xf0 {
        if cont(1) && b[i + 1] >= 0x90 && cont(2) && cont(3) { 4 } else { 0 }
    } else if c == 0xf4 {
        if cont(1) && b[i + 1] <= 0x8f && cont(2) && cont(3) { 4 } else { 0 }
    } else if 0xf1 <= c <= 0xf3 {
        if cont(1) && cont(2) && cont(3) { 4 } else { 0 }
    } else {
        0
    }
}

/// Whether `b` from `i` on is well-formed UTF-8.
pub open spec fn utf8_from(b: Seq<u8>, i: int) -> bool
    decreases (if i < b.len() { b.len() - i } else { 0 }),
{
    if i >= b.len() {
        true
    } else {
        let l = utf8_char_len(b, i);
        l > 0 && utf8_from(b, i + l)
    }
}

/// The length of the whitespace character (in the sense of Unicode's White_Space
/// property) that starts at `i` of UTF-8 text `t`, or 0 if none does.
pub open spec fn ws_len(t: Seq<u8>, i: int) -> int {
    let n = t.len() as int;
    let c = t[i];
    if i < 0 || i >= n {
        0
    } else if (9 <= c <= 13) || c == 32 {
        1
    } else if c == 0xc2 && i + 1 < n && (t[i + 1] == 0x85 || t[i + 1] == 0xa0) {
        2
    } else if n - i > 2 && ((c == 0xe1 && t[i + 1] == 0x9a && t[i + 2] == 0x80)
        || (c == 0xe2 && t[i + 1] == 0x80 && ((0x80 <= t[i + 2] <= 0x8a) || t[i + 2] == 0xa8 || t[i + 2] == 0xa9 || t[i + 2] == 0xaf))
        || (c == 0xe2 && t[i + 1] == 0x81 && t[i + 2] == 0x9f)
        || (c == 0xe3 && t[i + 1] == 0x80 && t[i + 2] == 0x80)) {
        3
    } else {
        0
    }
}

/// The first position from `p` on (before `e`) that does not start whitespace.
pub open spec fn skip_ws(t: Seq<u8>, p: int, e: int) -> int
    decreases (if p < e { e - p } else { 0 }),
{
    if p >= e || ws_len(t, p) == 0 { p } else { skip_ws(t, p + ws_len(t, p), e) }
}

/// The end of the token at `p`: the first position from `p` on (before `e`) that starts
/// whitespace.
pub open spec fn token_end(t: Seq<u8>, p: int, e: int) -> int
    decreases (if p < e { e - p } else { 0 }),
{
    if p >= e || ws_len(t, p) > 0 { p } else { token_end(t, p + 1, e) }
}

/// A run of digits ends at or after its start, past it if it starts with a digit, and
/// within the text.
pub proof fn lemma_digit_run_end(d: Seq<u8>, p: int, hex: bool)
    ensures
        p <= digit_run_end(d, p, hex),
        0 <= p < d.len() && (if hex { is_hex(d[p]) } else { is_dec(d[p]) }) ==> p < digit_run_end(d, p, hex),
        p <= d.len() ==> digit_run_end(d, p, hex) <= d.len(),
    decreases (if p < d.len() { d.len() - p } else { 0 }),
{
    if 0 <= p < d.len() && (if hex { is_hex(d[p]) } else { is_dec(d[p]) }) {
        lemma_digit_run_end(d, p + 1, hex);
    }
}

/// Whether `s` ends with `suffix`.
pub open spec fn ends_with(s: Seq<u8>, suffix: Seq<u8>) -> bool {
    s.len() >= suffix.len() && s.subrange(s.len() - suffix.len(), s.len() as int) == suffix
}

/// The value of digits `s` in base `radix`.
pub open spec fn digits_value(s: Seq<u8>, radix: int) -> int
    decreases s.len(),
{
    if s.len() == 0 { 0 } else { digits_value(s.drop_last(), radix) * radix + digit_of(s.last()) }
}

/// The value of decimal or hexadecimal digit `c`.
pub open spec fn digit_of(c: u8) -> int {
    if 48 <= c <= 57 { c - 48 } else if 97 <= c <= 102 { c - 87 } else { c - 55 }
}

/// Whether `c` is a decimal digit.
pub open spec fn is_dec(c: u8) -> bool {
    48 <= c <= 57
}

/// Whether `c` is a hexadecimal digit.
pub open spec fn is_hex(c: u8) -> bool {
    (48 <= c <= 57) || (97 <= c <= 102) || (65 <= c <= 70)
}

/// `s` without a leading `+`.
pub open spec fn sign_stripped(s: Seq<u8>) -> Seq<u8> {
    if s.len() > 0 && s[0] == 43 { s.drop_first() } else { s }
}

/// Whether every byte of `d` is a decimal digit.
pub open spec fn all_dec(d: Seq<u8>) -> bool {
    forall|i: int| 0 <= i < d.len() ==> is_dec(#[trigger] d[i])
}

/// The end of the run of digits (hexadecimal ones if `hex`) at `p`.
pub open spec fn digit_run_end(d: Seq<u8>, p: int, hex: bool) -> int
    decreases (if p < d.len() { d.len() - p } else { 0 }),
{
    if p < 0 || p >= d.len() || !(if hex { is_hex(d[p]) } else { is_dec(d[p]) }) { p } else { digit_run_end(d, p + 1, hex) }
}

/// The length of the well-formed UTF-8 sequence at `i`, or 0.
pub fn utf8_seq_len(b: &[u8], i: usize) -> (l: usize)
    requires
        i < b@.len(),
    ensures
        l == utf8_char_len(b@, i as int),
{
    let n = b.len();
    let c = b[i];
    let c1 = i + 1 < n && 0x80 <= b[i + 1] && b[i + 1] <= 0xbf;
    let c2 = n - i > 2 && 0x80 <= b[i + 2] && b[i + 2] <= 0xbf;
    let c3 = n - i > 3 && 0x80 <= b[i + 3] && b[i + 3] <= 0xbf;
    if c <= 0x7f {
        1
    } else if 0xc2 <= c && c <= 0xdf {
        if c1 { 2 } else { 0 }
    } else if c == 0xe0 {
        if c1 && b[i + 1] >= 0xa0 && c2 { 3 } else { 0 }
    } else if c == 0xed {
        if c1 && b[i + 1] <= 0x9f && c2 { 3 } else { 0 }
    } else if 0xe1 <= c && c <= 0xef {
        if c1 && c2 { 3 } else { 0 }
    } else if c == 0xf0 {
        if c1 && b[i + 1] >= 0x90 && c2 && c3 { 4 } else { 0 }
    } else if c == 0xf4 {
        if c1 && b[i + 1] <= 0x8f && c2 && c3 { 4 } else { 0 }
    } else if 0xf1 <= c && c <= 0xf3 {
        if c1 && c2 && c3 { 4 } else { 0 }
    } else {
        0
    }
}

/// Whether `b` is well-formed UTF-8.
pub fn is_utf8(b: &[u8]) -> (r: bool)
    ensures
        r == utf8_from(b@, 0),
{
    let n = b.len();
    let mut i: usize = 0;
    while i < n
        invariant
            n == b@.len(),
            i <= n,
            utf8_from(b@, 0) == utf8_from(b@, i as int),
        decreases n - i,
    {
        let l = utf8_seq_len(b, i);
        if l == 0 {
            return false;
        }
        i = i + l;
    }
    true
}

/// The length of the whitespace character at `i`, or 0.
pub fn ws_at(t: &[u8], i: usize) -> (l: usize)
    requires
        i < t@.len(),
    ensures
        l == ws_len(t@, i as int),
        l <= 3,
        i + l <= t@.len(),
{
    let n = t.len();
    let c = t[i];
    if (9 <= c && c <= 13) || c == 32 {
        1
    } else if c == 0xc2 && i + 1 < n && (t[i + 1] == 0x85 || t[i + 1] == 0xa0) {
        2
    } else if n - i > 2 && ((c == 0xe1 && t[i + 1] == 0x9a && t[i + 2] == 0x80)
        || (c == 0xe2 && t[i + 1] == 0x80 && ((0x80 <= t[i + 2] && t[i + 2] <= 0x8a) || t[i + 2] == 0xa8 || t[i + 2] == 0xa9 || t[i + 2] == 0xaf))
        || (c == 0xe2 && t[i + 1] == 0x81 && t[i + 2] == 0x9f)
        || (c == 0xe3 && t[i + 1] == 0x80 && t[i + 2] == 0x80)) {
        3
    } else {
        0
    }
}

/// Skips the whitespace from `p` on, before `e`.
pub fn skip_whitespace(t: &[u8], p: usize, e: usize) -> (r: usize)
    requires
        e <= t@.len(),
    ensures
        r == skip_ws(t@, p as int, e as int),
        p <= r,
        p <= t@.len() ==> r <= t@.len(),
{
    let n = t.len();
    let mut q = p;
    while q < e
        invariant
            n == t@.len(),
            e <= t@.len(),
            p <= q,
            p <= t@.len() ==> q <= t@.len(),
            skip_ws(t@, p as int, e as int) == skip_ws(t@, q as int, e as int),
        decreases e - q,
    {
        let l = ws_at(t, q);
        if l == 0 {
            return q;
        }
        if l > e - q {
            proof {
                assert(skip_ws(t@, (q + l) as int, e as int) == q + l);
            }
            return q + l;
        }
        q = q + l;
    }
    q
}

/// The end of the token at `p`, before `e`.
pub fn find_token_end(t: &[u8], p: usize, e: usize) -> (r: usize)
    requires
        e <= t@.len(),
    ensures
        r == token_end(t@, p as int, e as int),
        p <= r,
        p <= t@.len() ==> r <= t@.len(),
{
    let mut q = p;
    while q < e
        invariant
            e <= t@.len(),
            p <= q,
            p <= t@.len() ==> q <= t@.len(),
            token_end(t@, p as int, e as int) == token_end(t@, q as int, e as int),
        decreases e - q,
    {
        if ws_at(t, q) > 0 {
            return q;
        }
        q = q + 1;
    }
    q
}

/// Whether `t[a..b]` is exactly `tag`.
pub fn span_is(t: &[u8], a: usize, b: usize, tag: &[u8]) -> (r: bool)
    requires
        a <= b <= t@.len(),
    ensures
        r == (t@.subrange(a as int, b as int) == tag@),
{
    if b - a != tag.len() {
        proof {
            if t@.subrange(a as int, b as int) == tag@ {
                assert(t@.subrange(a as int, b as int).len() == tag@.len());
            }
        }
        return false;
    }
    tag_at(t, a, tag)
}

/// The value of the digits `t[a..b]` in base `radix`, or `cap` if it is larger.
pub fn digits_capped(t: &[u8], a: usize, b: usize, radix: u64, cap: u64) -> (r: u64)
    requires
        a <= b <= t@.len(),
        radix == 10 || radix == 16,
        forall|q: int| a <= q < b ==> #[trigger] is_hex(t@[q]) && (radix == 10 ==> is_dec(t@[q])),
    ensures
        r == (if digits_value(t@.subrange(a as int, b as int), radix as int) > cap { cap as int } else { digits_value(t@.subrange(a as int, b as int), radix as int) }),
{
    let mut v: u64 = 0;
    let mut i = a;
    while i < b
        invariant
            a <= i <= b <= t@.len(),
            radix == 10 || radix == 16,
            forall|q: int| a <= q < b ==> #[trigger] is_hex(t@[q]) && (radix == 10 ==> is_dec(t@[q])),
            v == (if digits_value(t@.subrange(a as int, i as int), radix as int) > cap { cap as int } else { digits_value(t@.subrange(a as int, i as int), radix as int) }),
            digits_value(t@.subrange(a as int, i as int), radix as int) >= 0,
        decreases b - i,
    {
        let c = t[i];
        assert(is_hex(t@[i as int]));
        let d: u64 = if c <= 57 { (c - 48) as u64 } else if c >= 97 { (c - 87) as u64 } else { (c - 55) as u64 };
        proof {
            assert(t@.subrange(a as int, i + 1).drop_last() =~= t@.subrange(a as int, i as int));
            assert(t@.subrange(a as int, i + 1).last() == c);
            assert(digit_of(c) == d);
        }
        assert((v as u128) * (radix as u128) <= 0xffff_ffff_ffff_ffffu128 * 16) by (nonlinear_arith)
            requires
                v <= 0xffff_ffff_ffff_ffffu64,
                radix <= 16,
        ;
        let next: u128 = (v as u128) * (radix as u128) + (d as u128);
        proof {
            let old_val = digits_value(t@.subrange(a as int, i as int), radix as int);
            assert(digits_value(t@.subrange(a as int, i + 1), radix as int) == old_val * radix + d);
            if old_val > cap {
                assert(old_val * radix + d > cap) by (nonlinear_arith)
                    requires
                        old_val > cap,
                        radix >= 10,
                        d >= 0,
                        cap >= 0,
                ;
                assert(cap * radix + d >= cap) by (nonlinear_arith)
                    requires
                        radix >= 10,
                        d >= 0,
                        cap >= 0,
                ;
            } else {
                assert(old_val * radix + d >= 0) by (nonlinear_arith)
                    requires
                        old_val >= 0,
                        radix >= 10,
                        d >= 0,
                ;
            }
        }
        v = if next > cap as u128 { cap } else { next as u64 };
        i = i + 1;
    }
    v
}

/// The end of the run of digits (hexadecimal ones if `hex`) at `p`.
pub fn run_end(d: &[u8], p: usize, hex: bool) -> (r: usize)
    requires
        p <= d@.len(),
    ensures
        r == digit_run_end(d@, p as int, hex),
        p <= r <= d@.len(),
        p < d@.len() && (if hex { is_hex(d@[p as int]) } else { is_dec(d@[p as int]) }) ==> p < r,
        forall|q: int| p <= q < r ==> #[trigger] is_hex(d@[q]) && (!hex ==> is_dec(d@[q])),
{
    let n = d.len();
    let mut q = p;
    while q < n
        invariant
            n == d@.len(),
            p <= q <= n,
            digit_run_end(d@, p as int, hex) == digit_run_end(d@, q as int, hex),
            forall|k: int| p <= k < q ==> #[trigger] is_hex(d@[k]) && (!hex ==> is_dec(d@[k])),
        decreases n - q,
    {
        if !is_run_digit(d[q], hex) {
            return q;
        }
        assert forall|k: int| p <= k < q + 1 implies #[trigger] is_hex(d@[k]) && (!hex ==> is_dec(d@[k])) by {
            if k == q {
                assert(if hex { is_hex(d@[q as int]) } else { is_dec(d@[q as int]) });
            }
        }
        q = q + 1;
    }
    q
}

/// Whether `c` is a digit of the run being read.
pub fn is_run_digit(c: u8, hex: bool) -> (r: bool)
    ensures
        r == (if hex { is_hex(c) } else { is_dec(c) }),
{
    if hex { is_hex_digit(c) } else { is_dec_digit(c) }
}

/// Whether `c` is a decimal digit.
pub fn is_dec_digit(c: u8) -> (r: bool)
    ensures
        r == is_dec(c),
{
    48 <= c && c <= 57
}

/// Whether `c` is a hexadecimal digit.
pub fn is_hex_digit(c: u8) -> (r: bool)
    ensures
        r == is_hex(c),
{
    (48 <= c && c <= 57) || (97 <= c && c <= 102) || (65 <= c && c <= 70)
}

/// Whether `t[a..b]` ends with `suffix`.
pub fn span_ends_with(t: &[u8], a: usize, b: usize, suffix: &[u8]) -> (r: bool)
    requires
        a <= b <= t@.len(),
    ensures
        r == ends_with(t@.subrange(a as int, b as int), suffix@),
{
    if b - a < suffix.len() {
        return false;
    }
    let start = b - suffix.len();
    assert(t@.subrange(a as int, b as int).subrange(start - a, b - a) =~= t@.subrange(start as int, b as int));
    tag_at(t, start, suffix)
}

/// The length of the whitespace character that ends at `e` and starts at or after `s`,
/// or 0.
pub open spec fn ws_len_before(t: Seq<u8>, s: int, e: int) -> int {
    if e - 1 >= s && ws_len(t, e - 1) == 1 {
        1
    } else if e - 2 >= s && ws_len(t, e - 2) == 2 {
        2
    } else if e - 3 >= s && ws_len(t, e - 3) == 3 {
        3
    } else {
        0
    }
}

/// The end of `t[s..e]` once its trailing whitespace is dropped.
pub open spec fn trim_end(t: Seq<u8>, s: int, e: int) -> int
    decreases (if s < e { e - s } else { 0 }),
{
    if e <= s || ws_len_before(t, s, e) == 0 { e } else { trim_end(t, s, e - ws_len_before(t, s, e)) }
}

/// `t` without its leading and trailing whitespace.
pub open spec fn trimmed(t: Seq<u8>) -> Seq<u8> {
    let a = skip_ws(t, 0, t.len() as int);
    t.subrange(a, trim_end(t, a, t.len() as int))
}

/// The value of the signed decimal token `s`: an optional sign, at least one digit, and
/// within the range of `i64`.
pub open spec fn parse_i64(s: Seq<u8>) -> Option<int> {
    let neg = s.len() > 0 && s[0] == 45;
    let d = sign_dropped(s);
    let v = digits_value(d, 10);
    if d.len() == 0 || !all_dec(d) {
        None
    } else if neg {
        if v > 0x8000_0000_0000_0000 { None } else { Some(-v) }
    } else if v > 0x7fff_ffff_ffff_ffff {
        None
    } else {
        Some(v)
    }
}

/// `s` without a leading `+` or `-`.
pub open spec fn sign_dropped(s: Seq<u8>) -> Seq<u8> {
    if s.len() > 0 && (s[0] == 43 || s[0] == 45) { s.drop_first() } else { s }
}

/// Whether `s` is `word` (written in lower-case letters) in any mix of ASCII case.
pub open spec fn eq_ignore_case(s: Seq<u8>, word: Seq<u8>) -> bool {
    s.len() == word.len() && forall|i: int| 0 <= i < s.len() ==> ascii_lower(#[trigger] s[i]) == word[i]
}

/// `c` with an ASCII capital letter made small.
pub open spec fn ascii_lower(c: u8) -> u8 {
    if 65 <= c <= 90 { (c + 32) as u8 } else { c }
}

/// Whether `s` is a decimal number: digits with at most one point and at least one
/// digit, then optionally `e` or `E`, a sign and at least one digit.
pub open spec fn float_number(s: Seq<u8>) -> bool {
    let i1 = digit_run_end(s, 0, false);
    let has_point = i1 < s.len() && s[i1] == 46;
    let i2 = if has_point { digit_run_end(s, i1 + 1, false) } else { i1 };
    let j = if i2 + 1 < s.len() && (s[i2 + 1] == 43 || s[i2 + 1] == 45) { i2 + 2 } else { i2 + 1 };
    if !(i1 > 0 || (has_point && i2 > i1 + 1)) {
        false
    } else if i2 >= s.len() {
        true
    } else if s[i2] != 101 && s[i2] != 69 {
        false
    } else {
        j < s.len() && digit_run_end(s, j, false) == s.len()
    }
}

/// Whether the standard library's `f64` parser accepts `s`: an optional sign, then `inf`,
/// `infinity` or `nan` in any case, or a decimal number.
pub open spec fn float_text(s: Seq<u8>) -> bool {
    let b = sign_dropped(s);
    eq_ignore_case(b, seq![0x69u8, 0x6e, 0x66]) || eq_ignore_case(b, seq![0x69u8, 0x6e, 0x66, 0x69, 0x6e, 0x69, 0x74, 0x79]) || eq_ignore_case(b, seq![0x6eu8, 0x61, 0x6e]) || float_number(b)
}

/// The length of the whitespace character that ends at `e`, not before `s`.
pub fn ws_before(t: &[u8], s: usize, e: usize) -> (l: usize)
    requires
        s <= e <= t@.len(),
    ensures
        l == ws_len_before(t@, s as int, e as int),
        l <= e - s,
{
    if e - s >= 1 && ws_at(t, e - 1) == 1 {
        1
    } else if e - s >= 2 && ws_at(t, e - 2) == 2 {
        2
    } else if e - s >= 3 && ws_at(t, e - 3) == 3 {
        3
    } else {
        0
    }
}

/// Where the text of `t` starts and ends once leading and trailing whitespace is dropped.
pub fn trim_bounds(t: &[u8]) -> (r: (usize, usize))
    ensures
        r.0 <= r.1 <= t@.len(),
        t@.subrange(r.0 as int, r.1 as int) == trimmed(t@),
{
    let n = t.len();
    let a = skip_whitespace(t, 0, n);
    let mut e = n;
    loop
        invariant_except_break
            n == t@.len(),
            a <= e <= n,
            a == skip_ws(t@, 0, n as int),
            trim_end(t@, a as int, n as int) == trim_end(t@, a as int, e as int),
        ensures
            a <= e <= n,
            e == trim_end(t@, a as int, n as int),
        decreases e,
    {
        if e <= a {
            break;
        }
        let l = ws_before(t, a, e);
        if l == 0 {
            break;
        }
        e = e - l;
    }
    (a, e)
}

/// The value of the signed decimal token `t[a..b]`.
pub fn parse_i64_token(t: &[u8], a: usize, b: usize) -> (r: Option<i64>)
    requires
        a <= b <= t@.len(),
    ensures
        match r {
            Some(v) => parse_i64(t@.subrange(a as int, b as int)) == Some(v as int),
            None => parse_i64(t@.subrange(a as int, b as int)) is None,
        },
{
    let ghost s = t@.subrange(a as int, b as int);
    let neg = a < b && t[a] == 45;
    let mut start = a;
    if a < b && (t[a] == 43 || t[a] == 45) {
        start = start + 1;
    }
    let ghost d = sign_dropped(s);
    assert(d =~= t@.subrange(start as int, b as int));
    if start == b {
        return None;
    }
    let mut q = start;
    while q < b
        invariant
            start <= q <= b <= t@.len(),
            s == t@.subrange(a as int, b as int),
            d == sign_dropped(s),
            d == t@.subrange(start as int, b as int),
            forall|k: int| start <= k < q ==> #[trigger] is_dec(t@[k]),
        decreases b - q,
    {
        if !is_dec_digit(t[q]) {
            assert(!is_dec(d[q - start]));
            assert(!all_dec(d));
            return None;
        }
        q = q + 1;
    }
    assert forall|i: int| 0 <= i < d.len() implies is_dec(#[trigger] d[i]) by {
        assert(is_dec(t@[start + i]));
    }
    assert(all_dec(d));
    assert forall|k: int| start <= k < b implies #[trigger] is_hex(t@[k]) && is_dec(t@[k]) by {
        assert(is_dec(t@[k]));
    }
    let v = digits_capped(t, start, b, 10, 0x8000_0000_0000_0001);
    if neg {
        if v > 0x8000_0000_0000_0000 {
            None
        } else if v == 0x8000_0000_0000_0000 {
            Some(i64::MIN)
        } else {
            Some(-(v as i64))
        }
    } else if v > 0x7fff_ffff_ffff_ffff {
        None
    } else {
        Some(v as i64)
    }
}

/// Whether `t[a..b]` is `word` (lower-case letters) in any mix of ASCII case.
pub fn span_eq_ignore_case(t: &[u8], a: usize, b: usize, word: &[u8]) -> (r: bool)
    requires
        a <= b <= t@.len(),
    ensures
        r == eq_ignore_case(t@.subrange(a as int, b as int), word@),
{
    let ghost s = t@.subrange(a as int, b as int);
    if b - a != word.len() {
        return false;
    }
    let mut i: usize = 0;
    while i < word.len()
        invariant
            b - a == word@.len(),
            a <= b <= t@.len(),
            s == t@.subrange(a as int, b as int),
            i <= word@.len(),
            forall|k: int| 0 <= k < i ==> ascii_lower(#[trigger] s[k]) == word@[k],
        decreases word@.len() - i,
    {
        let c = t[a + i];
        let lower = if 65 <= c && c <= 90 { c + 32 } else { c };
        if lower != word[i] {
            assert(ascii_lower(s[i as int]) != word@[i as int]);
            return false;
        }
        i = i + 1;
    }
    true
}

/// Whether the decimal number grammar accepts `t`.
pub fn is_float_number(t: &[u8]) -> (r: bool)
    ensures
        r == float_number(t@),
{
    let n = t.len();
    let i1 = run_end(t, 0, false);
    let has_point = i1 < n && t[i1] == 46;
    let i2 = if has_point { run_end(t, i1 + 1, false) } else { i1 };
    if !(i1 > 0 || (has_point && i2 > i1 + 1)) {
        return false;
    }
    if i2 >= n {
        return true;
    }
    if t[i2] != 101 && t[i2] != 69 {
        return false;
    }
    let j = if n - i2 > 1 && (t[i2 + 1] == 43 || t[i2 + 1] == 45) { i2 + 2 } else { i2 + 1 };
    j < n && run_end(t, j, false) == n
}

/// Whether the standard library's `f64` parser accepts `t`.
pub fn is_float_text(t: &[u8]) -> (r: bool)
    ensures
        r == float_text(t@),
{
    let n = t.len();
    let start: usize = if n > 0 && (t[0] == 43 || t[0] == 45) { 1 } else { 0 };
    let body = &t[start..n];
    assert(body@ =~= sign_dropped(t@));
    assert(body@.subrange(0, body@.len() as int) =~= body@);
    span_eq_ignore_case(body, 0, body.len(), &[0x69u8, 0x6e, 0x66]) || span_eq_ignore_case(body, 0, body.len(), &[0x69u8, 0x6e, 0x66, 0x69, 0x6e, 0x69, 0x74, 0x79])
        || span_eq_ignore_case(body, 0, body.len(), &[0x6eu8, 0x61, 0x6e]) || is_float_number(body)
}

/// The 32-bit value a decimal token spells: an optional `+`, then at least one digit,
/// and no more than `u32::MAX`.
pub open spec fn parse_u32(s: Seq<u8>) -> Option<int> {
    let d = sign_stripped(s);
    if d.len() == 0 || !all_dec(d) {
        None
    } else if digits_value(d, 10) > u32::MAX {
        None
    } else {
        Some(digits_value(d, 10))
    }
}

/// The 32-bit value spelled by the token `t[a..b]`.
pub fn parse_u32_token(t: &[u8], a: usize, b: usize) -> (r: Option<u32>)
    requires
        a <= b <= t@.len(),
    ensures
        match r {
            Some(v) => parse_u32(t@.subrange(a as int, b as int)) == Some(v as int),
            None => parse_u32(t@.subrange(a as int, b as int)) is None,
        },
{
    let ghost s = t@.subrange(a as int, b as int);
    let mut start = a;
    if start < b && t[start] == 43 {
        start = start + 1;
    }
    let ghost d = sign_stripped(s);
    assert(d =~= t@.subrange(start as int, b as int));
    if start == b {
        return None;
    }
    let mut q = start;
    while q < b
        invariant
            start <= q <= b <= t@.len(),
            s == t@.subrange(a as int, b as int),
            d == sign_stripped(s),
            d == t@.subrange(start as int, b as int),
            forall|k: int| start <= k < q ==> #[trigger] is_dec(t@[k]),
        decreases b - q,
    {
        if !is_dec_digit(t[q]) {
            assert(!is_dec(d[q - start]));
            assert(!all_dec(d));
            return None;
        }
        q = q + 1;
    }
    assert forall|i: int| 0 <= i < d.len() implies is_dec(#[trigger] d[i]) by {
        assert(is_dec(t@[start + i]));
    }
    assert(all_dec(d));
    assert forall|k: int| start <= k < b implies #[trigger] is_hex(t@[k]) && is_dec(t@[k]) by {
        assert(is_dec(t@[k]));
    }
    let v = digits_capped(t, start, b, 10, 0x1_0000_0000);
    if v > 0xffff_ffff {
        None
    } else {
        Some(v as u32)
    }
}

/// The value of digits is never negative.
pub proof fn lemma_digits_value_nonneg(s: Seq<u8>, radix: int)
    requires
        radix >= 1,
        forall|i: int| 0 <= i < s.len() ==> is_hex(#[trigger] s[i]),
    ensures
        digits_value(s, radix) >= 0,
    decreases s.len(),
{
    if s.len() > 0 {
        assert(is_hex(s[s.len() - 1]));
        assert forall|i: int| 0 <= i < s.drop_last().len() implies is_hex(#[trigger] s.drop_last()[i]) by {
            assert(is_hex(s[i]));
        }
        lemma_digits_value_nonneg(s.drop_last(), radix);
        assert(digits_value(s.drop_last(), radix) * radix >= 0) by (nonlinear_arith)
            requires
                digits_value(s.drop_last(), radix) >= 0,
                radix >= 1,
        ;
    }
}

} // verus!
