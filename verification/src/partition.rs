use vstd::prelude::*;
use vstd::arithmetic::div_mod::lemma_fundamental_div_mod;

verus! {

/// `n` divided by `d`, rounded up (`d > 0`).
pub open spec fn div_ceil(n: int, d: int) -> int {
    (n + d - 1) / d
}

/// How many framebuffer rows each of `threads` rendering workers is handed:
/// `height / threads`, rounded up, so that `threads` chunks cover every row.
pub fn rows_per_chunk(height: usize, threads: usize) -> (rows: usize)
    requires
        threads > 0,
        height + threads <= usize::MAX,
    ensures
        rows == div_ceil(height as int, threads as int),
        rows * threads >= height,
        rows * threads < height + threads,
{
    proof {
        lemma_ceil_bounds(height as int, threads as int);
    }
    (height + threads - 1) / threads
}

/// The rounded-up quotient is the least `q` with `q * d >= n`.
pub proof fn lemma_ceil_bounds(n: int, d: int)
    requires
        n >= 0,
        d > 0,
    ensures
        div_ceil(n, d) * d >= n,
        div_ceil(n, d) * d < n + d,
        div_ceil(n, d) >= 0,
{
    let m = n + d - 1;
    lemma_fundamental_div_mod(m, d);
    assert(div_ceil(n, d) * d == m - m % d) by (nonlinear_arith)
        requires
            m == d * (m / d) + m % d,
            div_ceil(n, d) == m / d,
    ;
    assert(0 <= m % d < d);
    assert(div_ceil(n, d) >= 0) by (nonlinear_arith)
        requires
            m >= 0,
            d > 0,
            div_ceil(n, d) == m / d,
    ;
}

/// The chunks of `rows_per_chunk(height, threads)` rows cover the framebuffer:
/// row `y` falls in chunk `y / rows`, and that chunk is one of the first
/// `threads`, so no row is left without a worker.
pub proof fn lemma_chunks_cover_rows(height: int, threads: int, y: int)
    requires
        threads > 0,
        0 <= y < height,
    ensures
        div_ceil(height, threads) > 0,
        0 <= y / div_ceil(height, threads) < threads,
        (y / div_ceil(height, threads)) * div_ceil(height, threads) <= y,
        y < (y / div_ceil(height, threads) + 1) * div_ceil(height, threads),
{
    let rows = div_ceil(height, threads);
    lemma_ceil_bounds(height, threads);
    assert(rows > 0) by (nonlinear_arith)
        requires
            rows * threads >= height,
            height > 0,
            threads > 0,
            rows >= 0,
    ;
    let c = y / rows;
    lemma_fundamental_div_mod(y, rows);
    assert(c * rows <= y && y < (c + 1) * rows) by (nonlinear_arith)
        requires
            y == rows * c + y % rows,
            0 <= y % rows < rows,
    ;
    assert(c >= 0) by (nonlinear_arith)
        requires
            y >= 0,
            rows > 0,
            c == y / rows,
    ;
    assert(c < threads) by (nonlinear_arith)
        requires
            c * rows <= y,
            y < height,
            height <= rows * threads,
            rows > 0,
            c >= 0,
    ;
}

} // verus!
