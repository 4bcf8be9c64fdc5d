//! Partition of a frame's rows into one contiguous band per worker.
use vstd::prelude::*;

verus! {

/// `a / b` rounded up, for `b > 0`.
pub open spec fn ceil_div(a: int, b: int) -> int {
    if a % b == 0 {
        a / b
    } else {
        a / b + 1
    }
}

/// The smallest multiple of `b` that is at least `a` is `b * ceil_div(a, b)`.
pub proof fn lemma_ceil_div_bounds(a: int, b: int)
    requires
        a >= 0,
        b > 0,
    ensures
        0 <= ceil_div(a, b) <= a,
        b * (ceil_div(a, b) - 1) < a <= b * ceil_div(a, b),
{
    let q = a / b;
    let r = a % b;
    assert(a == b * q + r && 0 <= r < b) by {
        vstd::arithmetic::div_mod::lemma_fundamental_div_mod(a, b);
        vstd::arithmetic::div_mod::lemma_mod_bound(a, b);
    }
    assert(q >= 0) by (nonlinear_arith)
        requires
            a == b * q + r,
            0 <= r < b,
            a >= 0,
            b > 0,
    ;
    if r == 0 {
        assert(b * (q - 1) == b * q - b) by (nonlinear_arith);
        assert(q <= a) by (nonlinear_arith)
            requires
                a == b * q,
                q >= 0,
                b > 0,
        ;
    } else {
        assert(b * (q + 1) == b * q + b) by (nonlinear_arith);
        assert(q + 1 <= a) by (nonlinear_arith)
            requires
                a == b * q + r,
                0 < r < b,
                q >= 0,
                b > 0,
        ;
    }
}

/// Quotient of `lhs` by `rhs`, rounded up.
pub fn div_ceil(lhs: usize, rhs: usize) -> (r: usize)
    requires
        rhs > 0,
    ensures
        r == ceil_div(lhs as int, rhs as int),
{
    proof {
        lemma_ceil_div_bounds(lhs as int, rhs as int);
    }
    let d = lhs / rhs;
    let r = lhs % rhs;
    if r > 0 {
        d + 1
    } else {
        d
    }
}

} // verus!

verus! {

/// Rows per band when `height` rows are shared among `workers` workers.
pub open spec fn band_height(height: int, workers: int) -> int {
    ceil_div(height, workers)
}

/// First row of worker `index`'s band.
pub open spec fn band_first(index: int, workers: int, height: int) -> int {
    vstd::math::min(index * band_height(height, workers), height)
}

/// One past the last row of worker `index`'s band.
pub open spec fn band_end(index: int, workers: int, height: int) -> int {
    vstd::math::min((index + 1) * band_height(height, workers), height)
}

/// Row `y` belongs to worker `index`'s band.
pub open spec fn in_band(y: int, index: int, workers: int, height: int) -> bool {
    band_first(index, workers, height) <= y < band_end(index, workers, height)
}

/// Some worker's band holds row `y`.
pub open spec fn row_is_covered(y: int, workers: int, height: int) -> bool {
    exists|i: int| 0 <= i < workers && #[trigger] in_band(y, i, workers, height)
}

/// The rows `[first, end)` of a frame that one worker renders.
#[derive(Clone, Copy, Debug, PartialEq, Eq)]
pub struct Band {
    pub first: usize,
    pub end: usize,
}

impl Band {
    /// The band of worker `index` (counted from 0) among `workers` workers on a
    /// frame of `height` rows.
    pub fn of(index: usize, workers: usize, height: usize) -> (b: Band)
        requires
            index < workers,
        ensures
            b.first == band_first(index as int, workers as int, height as int),
            b.end == band_end(index as int, workers as int, height as int),
            b.first <= b.end <= height,
    {
        let bh = div_ceil(height, workers);
        proof {
            lemma_ceil_div_bounds(height as int, workers as int);
        }
        if bh == 0 {
            assert(height == 0) by (nonlinear_arith)
                requires
                    workers * (bh - 1) < height <= workers * bh,
                    bh == 0,
                    workers > 0,
            ;
            return Band { first: 0, end: 0 };
        }
        let q = height / bh;
        proof {
            vstd::arithmetic::div_mod::lemma_fundamental_div_mod(height as int, bh as int);
            vstd::arithmetic::div_mod::lemma_mod_bound(height as int, bh as int);
            assert(q * bh <= height < (q + 1) * bh) by (nonlinear_arith)
                requires
                    height == bh * q + height % bh,
                    0 <= height % bh < bh,
            ;
        }
        let first = if index <= q {
            proof {
                lemma_mul_le(index as int, q as int, bh as int);
            }
            index * bh
        } else {
            proof {
                lemma_mul_le((q + 1) as int, index as int, bh as int);
            }
            height
        };
        let end = if index + 1 <= q {
            proof {
                lemma_mul_le((index + 1) as int, q as int, bh as int);
            }
            (index + 1) * bh
        } else {
            proof {
                lemma_mul_le((q + 1) as int, (index + 1) as int, bh as int);
            }
            height
        };
        proof {
            lemma_mul_le(index as int, (index + 1) as int, bh as int);
        }
        Band { first, end }
    }
}

proof fn lemma_mul_le(a: int, b: int, c: int)
    requires
        a <= b,
        c >= 0,
    ensures
        a * c <= b * c,
{
    assert(a * c <= b * c) by (nonlinear_arith)
        requires
            a <= b,
            c >= 0,
    ;
}

/// Bytes of frame that one band of rows spans, three bytes per pixel:
/// the chunk length used to cut the frame into per-worker slices.
pub fn band_stride(width: usize, height: usize, workers: usize) -> (r: usize)
    requires
        workers > 0,
        height * width * 3 <= usize::MAX,
    ensures
        r == band_height(height as int, workers as int) * width * 3,
{
    let bh = div_ceil(height, workers);
    proof {
        lemma_ceil_div_bounds(height as int, workers as int);
        lemma_mul_le(bh as int, height as int, width as int);
        lemma_mul_le((bh * width) as int, (height * width) as int, 3);
    }
    bh * width * 3
}

/// Cutting the frame into chunks of `band_stride` bytes, the last one
/// shorter, gives each worker exactly its band's bytes: the `i`-th chunk that
/// starts inside the frame belongs to a worker, and spans that worker's rows.
pub proof fn lemma_chunks_are_bands(width: int, height: int, workers: int, i: int)
    requires
        width >= 1,
        height >= 1,
        workers >= 1,
        i >= 0,
        i * (band_height(height, workers) * width * 3) < height * width * 3,
    ensures
        i < workers,
        i * (band_height(height, workers) * width * 3) == band_first(i, workers, height) * width * 3,
        vstd::math::min((i + 1) * (band_height(height, workers) * width * 3), height * width * 3)
            == band_end(i, workers, height) * width * 3,
{
    let bh = band_height(height, workers);
    let line = width * 3;
    lemma_ceil_div_bounds(height, workers);
    assert(i * (bh * width * 3) == (i * bh) * line && (i + 1) * (bh * width * 3) == ((i + 1) * bh)
        * line && height * width * 3 == height * line) by (nonlinear_arith)
        requires
            line == width * 3,
    ;
    if i * bh >= height {
        lemma_mul_le(height, i * bh, line);
    }
    if i >= workers {
        lemma_mul_le(workers, i, bh);
    }
    let f = band_first(i, workers, height);
    let e = band_end(i, workers, height);
    assert(f * width * 3 == f * line && e * width * 3 == e * line) by (nonlinear_arith)
        requires
            line == width * 3,
    ;
    if (i + 1) * bh <= height {
        lemma_mul_le((i + 1) * bh, height, line);
    } else {
        lemma_mul_le(height, (i + 1) * bh, line);
    }
}

/// Every row of the frame lies in the band of exactly one worker, and no band
/// holds a row outside the frame.
pub proof fn lemma_bands_partition_rows(width: int, height: int, workers: int)
    requires
        width % 64 == 0,
        1 <= workers <= height,
    ensures
        forall|y: int| 0 <= y < height ==> #[trigger] row_is_covered(y, workers, height),
        forall|y: int, i: int|
            0 <= i < workers && #[trigger] in_band(y, i, workers, height) ==> 0 <= y < height,
        forall|y: int, i: int, j: int|
            0 <= i < workers && 0 <= j < workers && #[trigger] in_band(y, i, workers, height)
                && #[trigger] in_band(y, j, workers, height) ==> i == j,
{
    lemma_rows_partition(height, workers);
}

proof fn lemma_rows_partition(height: int, workers: int)
    requires
        workers >= 1,
        height >= 1,
    ensures
        forall|y: int| 0 <= y < height ==> #[trigger] row_is_covered(y, workers, height),
        forall|y: int, i: int|
            0 <= i < workers && #[trigger] in_band(y, i, workers, height) ==> 0 <= y < height,
        forall|y: int, i: int, j: int|
            0 <= i < workers && 0 <= j < workers && #[trigger] in_band(y, i, workers, height)
                && #[trigger] in_band(y, j, workers, height) ==> i == j,
{
    let bh = band_height(height, workers);
    lemma_ceil_div_bounds(height, workers);
    assert(bh > 0) by (nonlinear_arith)
        requires
            height <= workers * bh,
            height >= 1,
            workers >= 1,
    ;
    assert forall|y: int| 0 <= y < height implies #[trigger] row_is_covered(y, workers, height) by {
        let i = y / bh;
        vstd::arithmetic::div_mod::lemma_fundamental_div_mod(y, bh);
        vstd::arithmetic::div_mod::lemma_mod_bound(y, bh);
        assert(i * bh <= y < (i + 1) * bh) by (nonlinear_arith)
            requires
                y == bh * i + y % bh,
                0 <= y % bh < bh,
        ;
        assert(0 <= i < workers) by (nonlinear_arith)
            requires
                i * bh <= y < (i + 1) * bh,
                y < height,
                height <= workers * bh,
                y >= 0,
                bh > 0,
        ;
        assert(in_band(y, i, workers, height));
    }
    assert forall|y: int, i: int, j: int|
        0 <= i < workers && 0 <= j < workers && #[trigger] in_band(y, i, workers, height)
            && #[trigger] in_band(y, j, workers, height) implies i == j by {
        if i < j {
            lemma_mul_le(i + 1, j, bh);
        } else if j < i {
            lemma_mul_le(j + 1, i, bh);
        }
    }
}

/// Byte `b` of the frame lies in worker `i`'s slice.
pub open spec fn in_slice(b: int, i: int, width: int, workers: int, height: int) -> bool {
    band_first(i, workers, height) * width * 3 <= b < band_end(i, workers, height) * width * 3
}

/// Every byte of the frame lies in the slice of exactly one worker, the one
/// numbered by the byte's offset divided by the chunk length `band_stride`,
/// inside exactly one row of that worker's band.
pub proof fn lemma_each_byte_one_owner(width: int, height: int, workers: int, b: int)
    requires
        width >= 1,
        height >= 1,
        workers >= 1,
        0 <= b < height * width * 3,
    ensures
        exists|i: int| 0 <= i < workers && #[trigger] in_slice(b, i, width, workers, height),
        0 <= b / (band_height(height, workers) * width * 3) < workers,
        in_slice(b, b / (band_height(height, workers) * width * 3), width, workers, height),
        forall|i: int, j: int|
            0 <= i < workers && 0 <= j < workers && #[trigger] in_slice(b, i, width, workers, height)
                && #[trigger] in_slice(b, j, width, workers, height) ==> i == j,
        forall|i: int|
            0 <= i < workers && #[trigger] in_slice(b, i, width, workers, height) ==> in_band(
                b / (width * 3),
                i,
                workers,
                height,
            ),
{
    let line = width * 3;
    let y = b / line;
    vstd::arithmetic::div_mod::lemma_fundamental_div_mod(b, line);
    vstd::arithmetic::div_mod::lemma_mod_bound(b, line);
    assert(y * line <= b < (y + 1) * line) by (nonlinear_arith)
        requires
            b == line * y + b % line,
            0 <= b % line < line,
    ;
    assert(0 <= y < height) by (nonlinear_arith)
        requires
            y * line <= b < (y + 1) * line,
            b < height * width * 3,
            line == width * 3,
            b >= 0,
            line > 0,
    ;
    lemma_rows_partition(height, workers);
    // a byte is in a slice exactly when its row is in that band
    assert forall|i: int| 0 <= i < workers implies #[trigger] in_slice(b, i, width, workers, height)
        == in_band(y, i, workers, height) by {
        let f = band_first(i, workers, height);
        let e = band_end(i, workers, height);
        assert(f * width * 3 == f * line && e * width * 3 == e * line) by (nonlinear_arith)
            requires
                line == width * 3,
        ;
        if f <= y {
            lemma_mul_le(f, y, line);
        } else {
            lemma_mul_le(y + 1, f, line);
        }
        if y < e {
            lemma_mul_le(y + 1, e, line);
        } else {
            lemma_mul_le(e, y, line);
        }
    }
    assert(row_is_covered(y, workers, height));
    let i = choose|i: int| 0 <= i < workers && #[trigger] in_band(y, i, workers, height);
    assert(in_slice(b, i, width, workers, height));
    // the owner is the chunk that holds the byte
    let bh = band_height(height, workers);
    let stride = bh * width * 3;
    lemma_ceil_div_bounds(height, workers);
    assert(bh > 0) by (nonlinear_arith)
        requires
            height <= workers * bh,
            height >= 1,
            workers >= 1,
            bh >= 0,
    ;
    assert(stride > 0) by (nonlinear_arith)
        requires
            stride == bh * width * 3,
            bh > 0,
            width >= 1,
    ;
    let c = b / stride;
    vstd::arithmetic::div_mod::lemma_fundamental_div_mod(b, stride);
    vstd::arithmetic::div_mod::lemma_mod_bound(b, stride);
    assert(c * stride <= b < (c + 1) * stride && c >= 0) by (nonlinear_arith)
        requires
            b == stride * c + b % stride,
            0 <= b % stride < stride,
            b >= 0,
    ;
    lemma_chunks_are_bands(width, height, workers, c);
    assert(in_slice(b, c, width, workers, height));
}

} // verus!

verus! {

/// A single worker's band is the whole frame.
pub proof fn lemma_single_worker_band(height: int)
    requires
        height >= 0,
    ensures
        band_first(0, 1, height) == 0,
        band_end(0, 1, height) == height,
{
    lemma_ceil_div_bounds(height, 1);
}

/// With as many workers as rows, each band is one row high: worker `i` renders
/// row `i` alone.
pub proof fn lemma_one_row_per_worker(height: int)
    requires
        height >= 1,
    ensures
        band_height(height, height) == 1,
        forall|i: int|
            0 <= i < height ==> #[trigger] band_first(i, height, height) == i && band_end(
                i,
                height,
                height,
            ) == i + 1,
{
    vstd::arithmetic::div_mod::lemma_div_by_self(height);
    vstd::arithmetic::div_mod::lemma_mod_self_0(height);
}

/// With more workers than rows, each band is at most one row high, and every
/// worker past the last row gets an empty band.
pub proof fn lemma_surplus_workers_idle(height: int, workers: int)
    requires
        0 <= height < workers,
    ensures
        band_height(height, workers) <= 1,
        forall|i: int|
            height <= i < workers ==> #[trigger] band_first(i, workers, height) == height
                && band_end(i, workers, height) == height,
{
    lemma_ceil_div_bounds(height, workers);
    let bh = band_height(height, workers);
    if bh >= 2 {
        lemma_mul_le(1, bh - 1, workers);
        assert(workers * (bh - 1) == (bh - 1) * workers) by (nonlinear_arith);
    }
    assert forall|i: int| height <= i < workers implies #[trigger] band_first(i, workers, height)
        == height && band_end(i, workers, height) == height by {
        if bh == 1 {
            assert(height >= 1);
        } else {
            assert(workers * bh == 0) by (nonlinear_arith)
                requires
                    bh == 0,
            ;
        }
    }
}

/// When the rows do not divide evenly and the last worker has rows at all,
/// its band holds `height % band_height` rows, fewer than a full band.
pub proof fn lemma_last_band_rows(height: int, workers: int)
    requires
        workers >= 1,
        height >= 1,
        height % workers != 0,
        (workers - 1) * band_height(height, workers) < height,
    ensures
        band_height(height, workers) > 0,
        band_end(workers - 1, workers, height) - band_first(workers - 1, workers, height) == height
            % band_height(height, workers),
        height % band_height(height, workers) < band_height(height, workers),
{
    let bh = band_height(height, workers);
    let n = workers;
    lemma_ceil_div_bounds(height, workers);
    assert(height > 0 && bh > 0) by (nonlinear_arith)
        requires
            (n - 1) * bh < height,
            height <= n * bh,
            n >= 1,
            bh >= 0,
    ;
    assert((n - 1) * bh + bh == n * bh) by (nonlinear_arith);
    vstd::arithmetic::div_mod::lemma_fundamental_div_mod(height, bh);
    vstd::arithmetic::div_mod::lemma_mod_bound(height, bh);
    vstd::arithmetic::div_mod::lemma_fundamental_div_mod(height, n);
    let q = height / bh;
    let r = height % bh;
    // the last band starts at (n - 1) * bh, so q == n - 1: a full band more
    // would reach n * bh >= height, and that is only possible when n divides height.
    assert(q == n - 1) by {
        assert(q * bh <= height < (q + 1) * bh) by (nonlinear_arith)
            requires
                height == bh * q + r,
                0 <= r < bh,
        ;
        if q < n - 1 {
            lemma_mul_le(q + 1, n - 1, bh);
        }
        if q > n - 1 {
            lemma_mul_le(n, q, bh);
            assert(height == n * bh);
            assert(height == n * bh && height % n == 0) by {
                vstd::arithmetic::div_mod::lemma_mod_multiples_basic(bh, n);
                assert(bh * n == n * bh) by (nonlinear_arith);
            }
        }
    }
    assert(q * bh == (n - 1) * bh);
    assert(q * bh == bh * q) by (nonlinear_arith);
}

/// The last worker's band is shorter than a full band by `height % band_height`
/// rows exactly when it holds rows and that remainder is half a band.
pub proof fn lemma_last_band_shortfall(height: int, workers: int)
    requires
        workers >= 1,
        height >= 1,
        height % workers != 0,
        (workers - 1) * band_height(height, workers) < height,
        2 * (height % band_height(height, workers)) == band_height(height, workers),
    ensures
        band_height(height, workers) - (band_end(workers - 1, workers, height) - band_first(
            workers - 1,
            workers,
            height,
        )) == height % band_height(height, workers),
{
    lemma_last_band_rows(height, workers);
}

} // verus!
