use vstd::prelude::*;

verus! {

/// Rows `0..n` of an image laid end to end, row `y` being `row(y)`.
pub open spec fn concat_rows(n: int, row: spec_fn(int) -> Seq<u8>) -> Seq<u8>
    decreases n,
{
    if n <= 0 {
        Seq::empty()
    } else {
        concat_rows(n - 1, row) + row(n - 1)
    }
}

/// Rows of one length `w` laid end to end are `n * w` bytes long.
pub proof fn lemma_concat_rows_len(n: int, row: spec_fn(int) -> Seq<u8>, w: int)
    requires
        0 <= n,
        0 <= w,
        forall|y: int| 0 <= y < n ==> #[trigger] row(y).len() == w,
    ensures
        concat_rows(n, row).len() == n * w,
    decreases n,
{
    if n > 0 {
        lemma_concat_rows_len(n - 1, row, w);
        assert(row(n - 1).len() == w);
        assert(n * w == (n - 1) * w + w) by (nonlinear_arith);
    } else {
        assert(n * w == 0) by (nonlinear_arith)
            requires
                n == 0,
        ;
    }
}

/// `n * m` is `(n - 1) * m + m`.
pub proof fn lemma_mul_step(n: int, m: int)
    ensures
        n * m == (n - 1) * m + m,
{
    assert(n * m == (n - 1) * m + m) by (nonlinear_arith);
}

/// Products of bounded factors are bounded.
pub proof fn lemma_mul_bound(a: int, b: int, ma: int, mb: int)
    requires
        0 <= a <= ma,
        0 <= b <= mb,
    ensures
        0 <= a * b <= ma * mb,
{
    assert(0 <= a * b <= ma * mb) by (nonlinear_arith)
        requires
            0 <= a <= ma,
            0 <= b <= mb,
    ;
}

/// Row `y` of `n` rows of `s` bytes ends within their `n * s` bytes.
pub proof fn lemma_row_end(y: int, s: int, n: int)
    requires
        0 <= y < n,
        0 <= s,
    ensures
        0 <= y * s,
        y * s + s <= n * s,
        n * s == s * n,
{
    assert(0 <= y * s && y * s + s <= n * s && n * s == s * n) by (nonlinear_arith)
        requires
            0 <= y < n,
            0 <= s,
    ;
}

/// Index `p` of `w * h` items lies in row `p / w` (below `h`), column `p % w`.
pub proof fn lemma_index_split(p: int, w: int, h: int)
    requires
        0 < w,
        0 <= p < w * h,
    ensures
        0 <= p / w < h,
        0 <= p % w < w,
        p == (p / w) * w + p % w,
{
    assert(0 <= p / w < h) by (nonlinear_arith)
        requires
            0 < w,
            0 <= p < w * h,
    ;
    assert(p == (p / w) * w + p % w) by (nonlinear_arith)
        requires
            0 < w,
    ;
}


/// Rows that agree give the same image.
pub proof fn lemma_concat_rows_ext(n: int, f: spec_fn(int) -> Seq<u8>, g: spec_fn(int) -> Seq<u8>)
    requires
        forall|y: int| 0 <= y < n ==> #[trigger] f(y) == g(y),
    ensures
        concat_rows(n, f) == concat_rows(n, g),
    decreases n,
{
    if n > 0 {
        lemma_concat_rows_ext(n - 1, f, g);
        assert(f(n - 1) == g(n - 1));
    }
}

/// Consecutive `k`-byte pieces of `s` from `o` on, laid end to end, are the stretch of
/// `s` they cover.
pub proof fn lemma_concat_chunks(s: Seq<u8>, o: int, n: int, k: int)
    requires
        0 <= o,
        0 <= n,
        0 <= k,
        o + n * k <= s.len(),
    ensures
        concat_rows(n, |i: int| s.subrange(o + i * k, o + i * k + k)) =~= s.subrange(o, o + n * k),
    decreases n,
{
    if n > 0 {
        assert(n * k == (n - 1) * k + k) by (nonlinear_arith);
        assert((n - 1) * k >= 0) by (nonlinear_arith)
            requires
                n >= 1,
                k >= 0,
        ;
        lemma_concat_chunks(s, o, n - 1, k);
    } else {
        assert(n * k == 0) by (nonlinear_arith)
            requires
                n == 0,
        ;
    }
}

} // verus!
