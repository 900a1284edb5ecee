//! Static split of a file list into contiguous, near-equal chunks, one per worker.

use vstd::prelude::*;

verus! {

/// Files per worker: `n` divided by `w`, rounded up.
pub open spec fn chunk_len(n: int, w: int) -> int {
    (n + w - 1) / w
}

/// First index of worker `k`'s chunk; the chunk ends where worker `k + 1`'s starts.
pub open spec fn chunk_start(n: int, w: int, k: int) -> int {
    if k * chunk_len(n, w) < n {
        k * chunk_len(n, w)
    } else {
        n
    }
}

/// Whether index `j` falls in worker `k`'s chunk.
pub open spec fn in_chunk(n: int, w: int, k: int, j: int) -> bool {
    chunk_start(n, w, k) <= j < chunk_start(n, w, k + 1)
}

/// Whether some worker's chunk holds index `j`.
pub open spec fn assigned(n: int, w: int, j: int) -> bool {
    exists|k: int| 0 <= k < w && #[trigger] in_chunk(n, w, k, j)
}

/// Files per worker for `n` files and `workers` workers, rounded up.
pub fn chunk_size(n: usize, workers: usize) -> (r: usize)
    requires
        workers > 0,
    ensures
        r == chunk_len(n as int, workers as int),
{
    let q = n / workers;
    if n % workers == 0 {
        proof {
            assert((n + workers - 1) / (workers as int) == q) by (nonlinear_arith)
                requires
                    workers > 0,
                    n % workers == 0,
                    q == n / workers,
            ;
        }
        q
    } else {
        proof {
            assert((n + workers - 1) / (workers as int) == q + 1) by (nonlinear_arith)
                requires
                    workers > 0,
                    n % workers != 0,
                    q == n / workers,
            ;
            assert(q + 1 <= n) by (nonlinear_arith)
                requires
                    workers > 0,
                    n % workers != 0,
                    q == n / workers,
            ;
        }
        q + 1
    }
}

/// The `[start, end)` index range of each worker's chunk, for `n` files split
/// across `workers` workers. Workers past the end of the list get empty ranges.
pub fn partition_ranges(n: usize, workers: usize) -> (r: Vec<(usize, usize)>)
    requires
        workers > 0,
    ensures
        r@.len() == workers,
        forall|k: int|
            0 <= k < workers ==> (#[trigger] r@[k]).0 == chunk_start(n as int, workers as int, k)
                && r@[k].1 == chunk_start(n as int, workers as int, k + 1),
{
    let c = chunk_size(n, workers);
    let ghost ci = chunk_len(n as int, workers as int);
    let mut r: Vec<(usize, usize)> = Vec::new();
    let mut start: usize = 0;
    let mut k: usize = 0;
    assert(chunk_start(n as int, workers as int, 0) == 0);
    while k < workers
        invariant
            k <= workers,
            c as int == ci == chunk_len(n as int, workers as int),
            ci >= 0,
            start <= n,
            start == chunk_start(n as int, workers as int, k as int),
            r@.len() == k,
            forall|i: int|
                0 <= i < k ==> (#[trigger] r@[i]).0 == chunk_start(n as int, workers as int, i)
                    && r@[i].1 == chunk_start(n as int, workers as int, i + 1),
        decreases workers - k,
    {
        let end = if n - start <= c {
            n
        } else {
            start + c
        };
        proof {
            assert((k + 1) * ci == k * ci + ci) by (nonlinear_arith);
            assert(k * ci >= 0) by (nonlinear_arith)
                requires
                    ci >= 0,
            ;
        }
        assert(end == chunk_start(n as int, workers as int, k + 1));
        r.push((start, end));
        start = end;
        k = k + 1;
    }
    r
}

/// Each worker's chunk ends no earlier than the previous one's.
proof fn lemma_chunk_monotone(n: int, w: int, k1: int, k2: int)
    requires
        n >= 0,
        w > 0,
        0 <= k1 <= k2,
    ensures
        chunk_start(n, w, k1) <= chunk_start(n, w, k2),
{
    let c = chunk_len(n, w);
    assert(c >= 0) by (nonlinear_arith)
        requires
            n >= 0,
            w > 0,
            c == (n + w - 1) / w,
    ;
    assert(k1 * c <= k2 * c) by (nonlinear_arith)
        requires
            0 <= k1 <= k2,
            c >= 0,
    ;
}

/// Splitting `n` files across `w` workers hands out every file exactly once:
/// each index below `n` lies in the chunk of exactly one worker, and no chunk
/// holds an index outside the list.
pub proof fn lemma_partition_exact(n: int, w: int)
    requires
        n >= 0,
        w > 0,
    ensures
        forall|j: int| 0 <= j < n ==> #[trigger] assigned(n, w, j),
        forall|k1: int, k2: int, j: int|
            0 <= k1 < w && 0 <= k2 < w && #[trigger] in_chunk(n, w, k1, j) && #[trigger] in_chunk(
                n,
                w,
                k2,
                j,
            ) ==> k1 == k2,
        forall|k: int, j: int| 0 <= k < w && #[trigger] in_chunk(n, w, k, j) ==> 0 <= j < n,
{
    let c = chunk_len(n, w);
    assert forall|j: int| 0 <= j < n implies #[trigger] assigned(n, w, j) by {
        assert(c >= 1) by (nonlinear_arith)
            requires
                n > 0,
                w > 0,
                c == (n + w - 1) / w,
        ;
        let k = j / c;
        assert(k * c <= j < (k + 1) * c) by (nonlinear_arith)
            requires
                c >= 1,
                j >= 0,
                k == j / c,
        ;
        assert(0 <= k < w) by (nonlinear_arith)
            requires
                c >= 1,
                0 <= j < n,
                k == j / c,
                c == (n + w - 1) / w,
                w > 0,
        ;
        assert(in_chunk(n, w, k, j));
    }
    assert forall|k1: int, k2: int, j: int|
        0 <= k1 < w && 0 <= k2 < w && #[trigger] in_chunk(n, w, k1, j) && #[trigger] in_chunk(
            n,
            w,
            k2,
            j,
        ) implies k1 == k2 by {
        if k1 < k2 {
            lemma_chunk_monotone(n, w, k1 + 1, k2);
        } else if k2 < k1 {
            lemma_chunk_monotone(n, w, k2 + 1, k1);
        }
    }
    assert forall|k: int, j: int| 0 <= k < w && #[trigger] in_chunk(n, w, k, j) implies 0 <= j < n by {
        lemma_chunk_monotone(n, w, 0, k);
        assert(chunk_start(n, w, 0) == 0);
    }
}

} // verus!
