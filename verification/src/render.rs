//! Work partitioning for the parallel render driver.
//!
//! The driver splits the image into contiguous bands of scanlines, one band
//! per worker thread, sized so that the remainder rows are spread evenly:
//! every band holds either `height / threads` or `height / threads + 1` rows.
//! Each worker renders its band bottom row last (rows reversed), and the
//! driver concatenates the bands last worker first, so the assembled buffer
//! lists the rows from `height - 1` down to `0` whatever the thread count.

use vstd::prelude::*;
use vstd::arithmetic::div_mod::lemma_fundamental_div_mod;

verus! {

/// Number of rows in the narrow bands: `height / threads`.
pub open spec fn rows_low(height: int, threads: int) -> int {
    height / threads
}

/// Number of rows in the wide bands: `height / threads`, plus one if the
/// division leaves a remainder.
pub open spec fn rows_high(height: int, threads: int) -> int {
    if height % threads == 0 {
        height / threads
    } else {
        height / threads + 1
    }
}

/// How many of the leading bands are wide: all of them when the rows divide
/// evenly, otherwise one per remainder row.
pub open spec fn high_count(height: int, threads: int) -> int {
    if height % threads == 0 {
        threads
    } else {
        height % threads
    }
}

/// Number of rows assigned to worker `k`.
pub open spec fn band_width(height: int, threads: int, k: int) -> int {
    if k < high_count(height, threads) {
        rows_high(height, threads)
    } else {
        rows_low(height, threads)
    }
}

/// First row assigned to worker `k`: the rows of all earlier workers.
pub open spec fn band_start(height: int, threads: int, k: int) -> int
    decreases k,
{
    if k <= 0 {
        0
    } else {
        band_start(height, threads, k - 1) + band_width(height, threads, k - 1)
    }
}

/// Band starts never decrease: every band has a non-negative width.
pub proof fn lemma_band_start_monotone(height: int, threads: int, k1: int, k2: int)
    requires
        threads >= 1,
        height >= 0,
        0 <= k1 <= k2,
    ensures
        band_start(height, threads, k1) <= band_start(height, threads, k2),
    decreases k2 - k1,
{
    if k1 < k2 {
        lemma_band_start_monotone(height, threads, k1, k2 - 1);
    }
}

/// The first `threads` bands hold exactly the `height` rows.
pub proof fn lemma_band_start_total(height: int, threads: int)
    requires
        threads >= 1,
        height >= 0,
    ensures
        band_start(height, threads, threads) == height,
{
    let low = rows_low(height, threads);
    let high = rows_high(height, threads);
    let nh = high_count(height, threads);
    lemma_band_start_closed(height, threads, threads);
    lemma_fundamental_div_mod(height, threads);
    if height % threads == 0 {
        assert(nh * high == height) by (nonlinear_arith)
            requires
                nh == threads,
                high == height / threads,
                height == threads * (height / threads),
        ;
    } else {
        assert(nh * high + (threads - nh) * low == height) by (nonlinear_arith)
            requires
                nh == height % threads,
                low == height / threads,
                high == low + 1,
                height == threads * low + nh,
        ;
    }
}

/// Closed form of the band starts: `k` wide bands, then narrow ones.
proof fn lemma_band_start_closed(height: int, threads: int, k: int)
    requires
        threads >= 1,
        height >= 0,
        0 <= k <= threads,
    ensures
        k <= high_count(height, threads) ==> band_start(height, threads, k) == k * rows_high(
            height,
            threads,
        ),
        k > high_count(height, threads) ==> band_start(height, threads, k) == high_count(
            height,
            threads,
        ) * rows_high(height, threads) + (k - high_count(height, threads)) * rows_low(
            height,
            threads,
        ),
    decreases k,
{
    let low = rows_low(height, threads);
    let high = rows_high(height, threads);
    let nh = high_count(height, threads);
    if k > 0 {
        lemma_band_start_closed(height, threads, k - 1);
        if k <= nh {
            assert((k - 1) * high + high == k * high) by (nonlinear_arith);
        } else if k - 1 == nh {
            assert(nh * high + 1 * low == nh * high + low) by (nonlinear_arith);
        } else {
            assert((k - 1 - nh) * low + low == (k - nh) * low) by (nonlinear_arith);
        }
    }
}

/// No band start lies beyond the last row.
pub proof fn lemma_band_start_le_total(height: int, threads: int, k: int)
    requires
        threads >= 1,
        height >= 0,
        0 <= k <= threads,
    ensures
        band_start(height, threads, k) <= height,
{
    lemma_band_start_monotone(height, threads, k, threads);
    lemma_band_start_total(height, threads);
}

/// The scanline bands are balanced: every worker receives either
/// `height / threads` rows or one row more, so no two bands differ by more
/// than a single row.
pub proof fn lemma_partition_balanced(height: int, threads: int)
    requires
        threads >= 1,
        height >= 0,
    ensures
        forall|k: int|
            0 <= k < threads ==> rows_low(height, threads) <= #[trigger] band_width(
                height,
                threads,
                k,
            ) <= rows_low(height, threads) + 1,
{
}

/// Every row belongs to exactly one band: each row `r` lies in some band,
/// and bands with distinct indices never overlap.
pub proof fn lemma_partition_covers(height: int, threads: int, r: int)
    requires
        threads >= 1,
        0 <= r < height,
    ensures
        exists|k: int|
            0 <= k < threads && #[trigger] band_start(height, threads, k) <= r < band_start(
                height,
                threads,
                k + 1,
            ),
        forall|k1: int, k2: int|
            0 <= k1 < k2 < threads ==> #[trigger] band_start(height, threads, k1 + 1)
                <= #[trigger] band_start(height, threads, k2),
{
    lemma_band_start_total(height, threads);
    lemma_covers_upto(height, threads, threads, r);
    assert forall|k1: int, k2: int| 0 <= k1 < k2 < threads implies #[trigger] band_start(
        height,
        threads,
        k1 + 1,
    ) <= #[trigger] band_start(height, threads, k2) by {
        lemma_band_start_monotone(height, threads, k1 + 1, k2);
    }
}

/// A row below the start of band `k` lies in one of the first `k` bands.
proof fn lemma_covers_upto(height: int, threads: int, k: int, r: int)
    requires
        threads >= 1,
        height >= 0,
        0 <= k <= threads,
        0 <= r < band_start(height, threads, k),
    ensures
        exists|j: int|
            0 <= j < k && #[trigger] band_start(height, threads, j) <= r < band_start(
                height,
                threads,
                j + 1,
            ),
    decreases k,
{
    if k > 0 {
        if band_start(height, threads, k - 1) <= r {
            assert(band_start(height, threads, k - 1) <= r < band_start(height, threads, k));
        } else {
            lemma_covers_upto(height, threads, k - 1, r);
        }
    }
}

/// Splits the `height` scanlines of an image into one contiguous band per
/// worker, balancing the remainder rows over the leading workers.
pub fn scanline_partition(height: usize, threads: usize) -> (parts: Vec<(usize, usize)>)
    requires
        1 <= threads,
        height + threads <= usize::MAX,
    ensures
        parts@.len() == threads,
        forall|k: int|
            0 <= k < threads ==> (#[trigger] parts@[k]).0 == band_start(
                height as int,
                threads as int,
                k,
            ) && parts@[k].1 == band_start(height as int, threads as int, k + 1),
        forall|k: int|
            0 <= k < threads ==> (#[trigger] parts@[k]).1 - parts@[k].0 == band_width(
                height as int,
                threads as int,
                k,
            ),
        band_start(height as int, threads as int, threads as int) == height,
{
    let ghost h = height as int;
    let ghost t = threads as int;
    let low: usize = height / threads;
    let rem: usize = height % threads;
    let high: usize = if rem == 0 {
        low
    } else {
        low + 1
    };
    let n_high: usize = if high == low {
        threads
    } else {
        proof {
            lemma_fundamental_div_mod(h, t);
            assert(threads * high == threads * low + threads) by (nonlinear_arith)
                requires
                    high == low + 1,
            ;
        }
        threads - (threads * high - height) / (high - low)
    };
    proof {
        lemma_band_start_total(h, t);
    }
    assert(low == rows_low(h, t));
    assert(high == rows_high(h, t));
    assert(n_high == high_count(h, t));

    let mut parts: Vec<(usize, usize)> = Vec::new();
    let mut pos: usize = 0;
    let mut k: usize = 0;
    while k < threads
        invariant
            t == threads,
            h == height,
            1 <= threads,
            height + threads <= usize::MAX,
            low == rows_low(h, t),
            high == rows_high(h, t),
            n_high == high_count(h, t),
            band_start(h, t, t) == h,
            k <= threads,
            parts@.len() == k,
            pos == band_start(h, t, k as int),
            forall|j: int|
                0 <= j < k ==> (#[trigger] parts@[j]).0 == band_start(h, t, j) && parts@[j].1
                    == band_start(h, t, j + 1),
        decreases threads - k,
    {
        let w: usize = if k < n_high {
            high
        } else {
            low
        };
        proof {
            assert(w == band_width(h, t, k as int));
            assert(band_start(h, t, k as int + 1) == band_start(h, t, k as int) + band_width(
                h,
                t,
                k as int,
            ));
            lemma_band_start_le_total(h, t, k as int + 1);
        }
        let end: usize = pos + w;
        parts.push((pos, end));
        pos = end;
        k = k + 1;
    }
    parts
}

/// The rows of `[lo, hi)`, highest first, as one worker walks its band.
pub open spec fn rev_range(lo: int, hi: int) -> Seq<int>
    decreases hi - lo,
{
    if hi <= lo {
        Seq::empty()
    } else {
        seq![hi - 1] + rev_range(lo, hi - 1)
    }
}

/// Row order of the assembled image when `k` bands have been concatenated,
/// last band first and each band's rows reversed.
pub open spec fn assembled_rows(height: int, threads: int, k: int) -> Seq<int>
    decreases k,
{
    if k <= 0 {
        Seq::empty()
    } else {
        rev_range(band_start(height, threads, k - 1), band_start(height, threads, k))
            + assembled_rows(height, threads, k - 1)
    }
}

/// Reversed ranges concatenate: the rows of `[lo, hi)` reversed are the rows
/// of `[mid, hi)` reversed followed by the rows of `[lo, mid)` reversed.
proof fn lemma_rev_range_split(lo: int, mid: int, hi: int)
    requires
        lo <= mid <= hi,
    ensures
        rev_range(lo, hi) == rev_range(mid, hi) + rev_range(lo, mid),
    decreases hi - mid,
{
    if mid == hi {
        assert(rev_range(mid, hi) + rev_range(lo, mid) =~= rev_range(lo, hi));
    } else {
        lemma_rev_range_split(lo, mid, hi - 1);
        assert(seq![hi - 1] + (rev_range(mid, hi - 1) + rev_range(lo, mid)) =~= (seq![hi - 1]
            + rev_range(mid, hi - 1)) + rev_range(lo, mid));
    }
}

/// The assembled buffer lists the covered rows from the highest down to row
/// zero, whatever the number of bands already concatenated.
proof fn lemma_assembled_rows_rev(height: int, threads: int, k: int)
    requires
        threads >= 1,
        height >= 0,
        0 <= k <= threads,
    ensures
        assembled_rows(height, threads, k) == rev_range(0, band_start(height, threads, k)),
    decreases k,
{
    if k == 0 {
    } else {
        lemma_assembled_rows_rev(height, threads, k - 1);
        lemma_band_start_monotone(height, threads, k - 1, k);
        lemma_band_start_monotone(height, threads, 0, k - 1);
        lemma_rev_range_split(0, band_start(height, threads, k - 1), band_start(height, threads, k));
    }
}

/// The parallel driver writes the rows in the same order whatever the worker
/// count: with each band reversed and the bands concatenated last worker
/// first, the assembled buffer always lists rows `height - 1` down to `0`.
/// A render whose per-pixel colors are fixed therefore assembles the same
/// image for every thread count.
pub proof fn lemma_assembly_thread_independent(height: int, t1: int, t2: int)
    requires
        height >= 0,
        t1 >= 1,
        t2 >= 1,
    ensures
        assembled_rows(height, t1, t1) == assembled_rows(height, t2, t2),
        assembled_rows(height, t1, t1) == rev_range(0, height),
{
    lemma_assembled_rows_rev(height, t1, t1);
    lemma_assembled_rows_rev(height, t2, t2);
    lemma_band_start_total(height, t1);
    lemma_band_start_total(height, t2);
}

/// Concatenates the per-worker buffers, last worker first, as the parallel
/// driver does when it joins its threads.
pub fn assemble_chunks(chunks: Vec<Vec<u8>>) -> (out: Vec<u8>)
    ensures
        out@ == concat_rev(chunks@.map_values(|c: Vec<u8>| c@), chunks@.len() as int),
{
    let ghost views = chunks@.map_values(|c: Vec<u8>| c@);
    let mut out: Vec<u8> = Vec::new();
    let mut left: usize = chunks.len();
    while left > 0
        invariant
            left <= chunks.len(),
            views == chunks@.map_values(|c: Vec<u8>| c@),
            out@ == concat_rev(views, chunks@.len() - left),
        decreases left,
    {
        let chunk = &chunks[left - 1];
        let mut i: usize = 0;
        while i < chunk.len()
            invariant
                1 <= left <= chunks.len(),
                views == chunks@.map_values(|c: Vec<u8>| c@),
                i <= chunk.len(),
                chunk@ == views[left - 1],
                out@ == concat_rev(views, chunks@.len() - left) + chunk@.take(i as int),
            decreases chunk.len() - i,
        {
            out.push(chunk[i]);
            assert(chunk@.take(i + 1) == chunk@.take(i as int) + seq![chunk@[i as int]]);
            i = i + 1;
        }
        proof {
            assert(chunk@.take(chunk@.len() as int) == chunk@);
            assert(concat_rev(views, chunks@.len() - left + 1) == concat_rev(
                views,
                chunks@.len() - left,
            ) + views[left - 1]);
        }
        left = left - 1;
    }
    out
}

/// The first `n` buffers, concatenated in reverse order of the workers.
pub open spec fn concat_rev(chunks: Seq<Seq<u8>>, n: int) -> Seq<u8>
    decreases n,
{
    if n <= 0 || n > chunks.len() {
        Seq::empty()
    } else {
        concat_rev(chunks, n - 1) + chunks[chunks.len() - n]
    }
}

} // verus!
