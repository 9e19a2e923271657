//! The split of an index range into the contiguous chunks of a worker pool.

use vstd::prelude::*;

verus! {

/// A contiguous run of indices: from `start` up to, not including, `end`.
#[derive(Clone, Copy, Debug, PartialEq, Eq)]
pub struct Chunk {
    pub start: usize,
    pub end: usize,
}

/// The length of every chunk but the last when `n` indices are split among
/// `workers` workers: `n` divided by `workers`, rounded up. A pool of no
/// worker is run by the caller alone, as a pool of one is.
pub open spec fn chunk_len(n: nat, workers: nat) -> nat {
    if workers <= 1 {
        n
    } else if n % workers == 0 {
        n / workers
    } else {
        n / workers + 1
    }
}

/// The number of chunks: as many chunks of `chunk_len` as it takes to reach
/// `n`.
pub open spec fn chunk_count(n: nat, workers: nat) -> nat {
    if n == 0 {
        0
    } else {
        ((n + chunk_len(n, workers) - 1) / (chunk_len(n, workers) as int)) as nat
    }
}

/// Where chunk `k` starts.
pub open spec fn chunk_start(n: nat, workers: nat, k: int) -> int {
    k * chunk_len(n, workers)
}

/// Where chunk `k` ends: one chunk length after its start, or at `n` where
/// that comes first.
pub open spec fn chunk_end(n: nat, workers: nat, k: int) -> int {
    if (k + 1) * chunk_len(n, workers) < n {
        (k + 1) * chunk_len(n, workers)
    } else {
        n as int
    }
}

/// With at least one index to split, chunks are not empty, and the pool's
/// chunks reach the last index.
proof fn lemma_chunk_len_positive(n: nat, workers: nat)
    requires
        n > 0,
    ensures
        chunk_len(n, workers) > 0,
        chunk_len(n, workers) <= n,
        workers >= 1 ==> chunk_len(n, workers) * workers >= n,
{
    if workers > 1 {
        let w = workers as int;
        let m = n as int;
        assert(m == w * (m / w) + m % w && 0 <= m % w < w) by (nonlinear_arith)
            requires
                w > 1,
                m > 0,
        ;
        assert(m / w >= 0 && (m % w == 0 ==> m / w > 0) && m / w <= m && (m % w != 0 ==> m / w < m)
            && (m / w) * w == w * (m / w) && (m / w + 1) * w == w * (m / w) + w) by (nonlinear_arith)
            requires
                w > 1,
                m > 0,
                m == w * (m / w) + m % w,
                0 <= m % w < w,
        ;
    } else if workers == 1 {
        assert(n * 1 == n);
    }
}

/// `k` is the number of chunks of length `len` that it takes to reach `n`.
proof fn lemma_count_is(n: int, len: int, k: int)
    requires
        len > 0,
        n > 0,
        (k - 1) * len < n <= k * len,
    ensures
        (n + len - 1) / len == k,
{
    let q = (n + len - 1) / len;
    let r = (n + len - 1) % len;
    assert(n + len - 1 == len * q + r && 0 <= r < len) by (nonlinear_arith)
        requires
            len > 0,
            q == (n + len - 1) / len,
            r == (n + len - 1) % len,
    ;
    assert(q == k) by (nonlinear_arith)
        requires
            n + len - 1 == len * q + r,
            0 <= r < len,
            len > 0,
            (k - 1) * len < n <= k * len,
    ;
}

/// The chunks are a partition of the indices below `n`, in order: the first
/// starts at 0, each starts where the one before it ends, none is empty,
/// and the last ends at `n`. There are no more chunks than workers.
pub open spec fn chunks_partition(n: nat, workers: nat) -> bool {
    &&& n == 0 <==> chunk_count(n, workers) == 0
    &&& workers >= 1 ==> chunk_count(n, workers) <= workers
    &&& workers == 0 ==> chunk_count(n, workers) <= 1
    &&& chunk_start(n, workers, 0) == 0
    &&& forall|k: int|
        0 <= k < chunk_count(n, workers) ==> 0 <= #[trigger] chunk_start(n, workers, k)
            < chunk_end(n, workers, k) <= n
    &&& forall|k: int|
        0 <= k < chunk_count(n, workers) - 1 ==> #[trigger] chunk_end(n, workers, k)
            == chunk_start(n, workers, k + 1)
    &&& n > 0 ==> chunk_end(n, workers, chunk_count(n, workers) - 1) == n
}

/// Whatever the number of indices and of workers, the chunks are a
/// partition.
pub proof fn lemma_chunks_partition(n: nat, workers: nat)
    ensures
        chunks_partition(n, workers),
{
    if n > 0 {
        lemma_chunk_len_positive(n, workers);
        let len = chunk_len(n, workers) as int;
        let count = chunk_count(n, workers) as int;
        let m = n as int;
        let r = (m + len - 1) % len;
        assert(m + len - 1 == len * count + r && 0 <= r < len) by (nonlinear_arith)
            requires
                len > 0,
                m > 0,
                count == (m + len - 1) / len,
                r == (m + len - 1) % len,
        ;
        assert((count - 1) * len < m <= count * len && count >= 1) by (nonlinear_arith)
            requires
                m + len - 1 == len * count + r,
                0 <= r < len,
                len > 0,
                m > 0,
        ;
        assert(workers >= 1 ==> count <= workers) by (nonlinear_arith)
            requires
                (count - 1) * len < m,
                workers >= 1 ==> len * workers >= m,
                len > 0,
        ;
        if workers == 0 {
            assert(count <= 1) by (nonlinear_arith)
                requires
                    (count - 1) * len < m,
                    len == m,
                    len > 0,
            ;
        }
        assert forall|k: int| 0 <= k < count implies 0 <= #[trigger] chunk_start(n, workers, k)
            < chunk_end(n, workers, k) <= n by {
            assert(0 <= k * len && k * len < (k + 1) * len && k * len <= (count - 1) * len)
                by (nonlinear_arith)
                requires
                    0 <= k < count,
                    len > 0,
            ;
        }
        assert forall|k: int| 0 <= k < count - 1 implies #[trigger] chunk_end(n, workers, k)
            == chunk_start(n, workers, k + 1) by {
            assert((k + 1) * len <= (count - 1) * len) by (nonlinear_arith)
                requires
                    0 <= k < count - 1,
                    len > 0,
            ;
        }
        assert(((count - 1) + 1) * len == count * len);
        assert(chunk_start(n, workers, 0) == 0) by (nonlinear_arith)
            requires
                chunk_start(n, workers, 0) == 0 * len,
        ;
    } else {
        assert(chunk_start(n, workers, 0) == 0) by (nonlinear_arith)
            requires
                chunk_start(n, workers, 0) == 0 * chunk_len(n, workers),
        ;
    }
}

/// Every index below `n` lies in exactly one chunk.
pub proof fn lemma_chunk_of_index(n: nat, workers: nat, i: int) -> (k: int)
    requires
        0 <= i < n,
    ensures
        0 <= k < chunk_count(n, workers),
        chunk_start(n, workers, k) <= i < chunk_end(n, workers, k),
        forall|j: int|
            0 <= j < chunk_count(n, workers) && #[trigger] chunk_start(n, workers, j) <= i
                < chunk_end(n, workers, j) ==> j == k,
{
    lemma_chunk_len_positive(n, workers);
    lemma_chunks_partition(n, workers);
    let len = chunk_len(n, workers) as int;
    let count = chunk_count(n, workers) as int;
    let k = i / len;
    let r = i % len;
    assert(i == len * k + r && 0 <= r < len) by (nonlinear_arith)
        requires
            len > 0,
            k == i / len,
            r == i % len,
    ;
    assert(k >= 0 && k * len <= i < (k + 1) * len) by (nonlinear_arith)
        requires
            i == len * k + r,
            0 <= r < len,
            len > 0,
            i >= 0,
    ;
    let m = n as int;
    let rr = (m + len - 1) % len;
    assert(m + len - 1 == len * count + rr && 0 <= rr < len) by (nonlinear_arith)
        requires
            len > 0,
            count == (m + len - 1) / len,
            rr == (m + len - 1) % len,
    ;
    assert(k < count) by (nonlinear_arith)
        requires
            k * len <= i,
            i < m,
            m + len - 1 == len * count + rr,
            0 <= rr < len,
            len > 0,
    ;
    assert forall|j: int|
        0 <= j < count && #[trigger] chunk_start(n, workers, j) <= i < chunk_end(
            n,
            workers,
            j,
        ) implies j == k by {
        assert(j * len <= i < (j + 1) * len);
        assert(j == k) by (nonlinear_arith)
            requires
                j * len <= i < (j + 1) * len,
                k * len <= i < (k + 1) * len,
                len > 0,
        ;
    }
    k
}

/// Splits the indices below `n` into the chunks of a pool of `workers`
/// workers.
pub fn chunk_bounds(n: usize, workers: usize) -> (bounds: Vec<Chunk>)
    ensures
        bounds.len() == chunk_count(n as nat, workers as nat),
        forall|k: int|
            0 <= k < bounds.len() ==> (#[trigger] bounds[k]).start == chunk_start(
                n as nat,
                workers as nat,
                k,
            ) && bounds[k].end == chunk_end(n as nat, workers as nat, k),
{
    let len: usize = if workers <= 1 {
        n
    } else if n % workers == 0 {
        n / workers
    } else {
        proof {
            assert(n > 0) by {
                assert(0int % (workers as int) == 0);
            }
            lemma_chunk_len_positive(n as nat, workers as nat);
        }
        n / workers + 1
    };
    let mut bounds: Vec<Chunk> = Vec::new();
    let mut start: usize = 0;
    assert(0 * len == 0);
    while start < n
        invariant
            len == chunk_len(n as nat, workers as nat),
            start <= n,
            start < n ==> start == bounds.len() * len,
            bounds.len() > 0 ==> (bounds.len() - 1) * len < n,
            start == n && n > 0 ==> bounds.len() > 0 && n <= bounds.len() * len,
            forall|k: int|
                0 <= k < bounds.len() ==> (#[trigger] bounds[k]).start == chunk_start(
                    n as nat,
                    workers as nat,
                    k,
                ) && bounds[k].end == chunk_end(n as nat, workers as nat, k),
        decreases n - start,
    {
        proof {
            lemma_chunk_len_positive(n as nat, workers as nat);
        }
        let ghost k: int = bounds.len() as int;
        assert((k + 1) * len == k * len + len) by (nonlinear_arith);
        let end: usize = if n - start > len {
            start + len
        } else {
            n
        };
        bounds.push(Chunk { start, end });
        start = end;
    }
    proof {
        let k: int = bounds.len() as int;
        if n > 0 {
            lemma_chunk_len_positive(n as nat, workers as nat);
            lemma_count_is(n as int, len as int, k);
        } else {
            assert(k == 0) by (nonlinear_arith)
                requires
                    k > 0 ==> (k - 1) * len < 0,
                    k >= 0,
                    len >= 0,
            ;
        }
    }
    bounds
}

} // verus!
