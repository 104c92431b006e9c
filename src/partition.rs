//! Splitting a request budget into contiguous work ranges, one per worker.

use vstd::arithmetic::div_mod::{lemma_fundamental_div_mod, lemma_fundamental_div_mod_converse};
use vstd::prelude::*;

verus! {

/// An end-exclusive slice `[start, end)` of the request index space.
#[derive(Clone, Copy, Debug, PartialEq, Eq, Structural)]
pub struct WorkRange {
    pub start: usize,
    pub end: usize,
}

/// The worker count actually used: at least one.
pub open spec fn effective_workers(workers: nat) -> nat {
    if workers == 0 { 1 } else { workers }
}

/// Requests handed to each worker: `ceil(requests / workers)`.
pub open spec fn chunk_size(requests: nat, workers: nat) -> nat {
    let w = effective_workers(workers);
    ((requests + w - 1) as nat) / w
}

/// The number of non-empty ranges: workers whose first index lies below `requests`.
pub open spec fn range_count(requests: nat, workers: nat) -> nat {
    let c = chunk_size(requests, workers);
    if c == 0 {
        0
    } else {
        let needed = ((requests + c - 1) as nat) / c;
        if needed < effective_workers(workers) { needed } else { effective_workers(workers) }
    }
}

/// Range `i` of the partition: `[i * chunk, min((i + 1) * chunk, requests))`.
pub open spec fn range_at(requests: nat, workers: nat, i: nat) -> (int, int) {
    let c = chunk_size(requests, workers);
    let end = if (i + 1) * c < requests { ((i + 1) * c) as int } else { requests as int };
    ((i * c) as int, end)
}

/// The emitted partition: every range of the formula that is not empty, in order.
pub open spec fn work_ranges(requests: nat, workers: nat) -> Seq<(int, int)> {
    Seq::new(range_count(requests, workers), |i: int| range_at(requests, workers, i as nat))
}

/// Index `x` lies in one of `ranges`.
pub open spec fn in_some_range(ranges: Seq<(int, int)>, x: int) -> bool {
    exists|k: int| 0 <= k < ranges.len() && #[trigger] ranges[k].0 <= x < ranges[k].1
}

pub open spec fn range_view(r: WorkRange) -> (int, int) {
    (r.start as int, r.end as int)
}

/// `requests / workers` rounded up, as computed without overflow.
proof fn lemma_chunk(requests: int, w: int)
    requires
        requests >= 0,
        w >= 1,
    ensures
        ((requests + w - 1) / w) == requests / w + (if requests % w == 0 { 0int } else { 1int }),
        ((requests + w - 1) / w) * w >= requests,
        requests == 0 ==> (requests + w - 1) / w == 0,
        requests > 0 ==> (requests + w - 1) / w > 0,
{
    lemma_fundamental_div_mod(requests, w);
    let q = requests / w;
    let m = requests % w;
    if m == 0 {
        assert(requests + w - 1 == q * w + (w - 1)) by (nonlinear_arith)
            requires
                requests == w * q + m,
                m == 0,
        ;
        lemma_fundamental_div_mod_converse(requests + w - 1, w, q, w - 1);
    } else {
        assert(requests + w - 1 == (q + 1) * w + (m - 1)) by (nonlinear_arith)
            requires
                requests == w * q + m,
        ;
        lemma_fundamental_div_mod_converse(requests + w - 1, w, q + 1, m - 1);
    }
    assert(((requests + w - 1) / w) * w >= requests) by (nonlinear_arith)
        requires
            w * q + m == requests,
            0 <= m < w,
            (requests + w - 1) / w == q + (if m == 0 { 0int } else { 1int }),
    ;
    if requests > 0 {
        assert(q > 0 || m > 0) by (nonlinear_arith)
            requires
                requests == w * q + m,
                requests > 0,
                q >= 0,
        ;
    }
}

/// Rounding up a division whose quotient is pinned between neighbours.
proof fn lemma_ceil_is(requests: int, c: int, i: int)
    requires
        c > 0,
        i >= 1,
        (i - 1) * c < requests,
        requests <= i * c,
    ensures
        (requests + c - 1) / c == i,
{
    assert(i * c <= requests + c - 1 && requests + c - 1 - i * c < c) by (nonlinear_arith)
        requires
            (i - 1) * c < requests,
            requests <= i * c,
            c > 0,
    ;
    lemma_fundamental_div_mod_converse(requests + c - 1, c, i, requests + c - 1 - i * c);
}

/// Splits `requests` request indices into contiguous, near-equal ranges over
/// `workers` workers (at least one). Range `i` is
/// `[i * chunk, min((i + 1) * chunk, requests))` with `chunk = ceil(requests / workers)`;
/// empty ranges are left out.
pub fn partition(requests: usize, workers: usize) -> (r: Vec<WorkRange>)
    ensures
        r@.map_values(|x: WorkRange| range_view(x)) == work_ranges(requests as nat, workers as nat),
{
    let w: usize = if workers == 0 { 1 } else { workers };
    let q: usize = requests / w;
    proof {
        lemma_chunk(requests as int, w as int);
        lemma_fundamental_div_mod(requests as int, w as int);
        if requests % w != 0 {
            assert(q < requests) by (nonlinear_arith)
                requires
                    requests == w * q + requests % w,
                    requests % w > 0,
                    w >= 2,
                    q >= 0,
            ;
        }
    }
    let chunk: usize = if requests % w == 0 { q } else { q + 1 };
    let ghost c: int = chunk as int;
    assert(c == chunk_size(requests as nat, workers as nat));
    let mut out: Vec<WorkRange> = Vec::new();
    let mut i: usize = 0;
    let mut start: usize = 0;
    while i < w && start < requests
        invariant
            w == effective_workers(workers as nat),
            c == chunk as int,
            c == chunk_size(requests as nat, workers as nat),
            c * w >= requests,
            requests > 0 ==> c > 0,
            i <= w,
            start as int == (if i * c < requests { i * c } else { requests as int }),
            i > 0 ==> (i - 1) * c < requests,
            out@.len() == i,
            forall|k: int|
                0 <= k < i ==> range_view(#[trigger] out@[k]) == range_at(
                    requests as nat,
                    workers as nat,
                    k as nat,
                ),
        decreases w - i,
    {
        assert((i + 1) * c == i * c + c) by (nonlinear_arith);
        let end: usize = if requests - start <= chunk { requests } else { start + chunk };
        assert(start as int == i * c);
        let ghost cn: nat = chunk_size(requests as nat, workers as nat);
        assert(((i as nat) + 1) * cn == i * c + c) by (nonlinear_arith)
            requires
                cn == c,
        ;
        assert(end as int == range_at(requests as nat, workers as nat, i as nat).1);
        assert(start as int == range_at(requests as nat, workers as nat, i as nat).0);
        out.push(WorkRange { start, end });
        assert(range_view(out@[i as int]) == range_at(requests as nat, workers as nat, i as nat));
        start = end;
        i = i + 1;
    }
    proof {
        if requests == 0 {
            assert(i == 0);
        } else {
            if i == w {
                assert(w * c >= requests) by (nonlinear_arith)
                    requires
                        c * w >= requests,
                ;
            }
            assert(i * c >= requests);
            lemma_ceil_is(requests as int, c, i as int);
        }
        assert(i == range_count(requests as nat, workers as nat));
    }
    assert(out@.map_values(|x: WorkRange| range_view(x)) =~= work_ranges(
        requests as nat,
        workers as nat,
    ));
    out
}

/// `ceil(requests / c)` blocks of `c` cover `requests`, and one block fewer does not.
proof fn lemma_ceil_bounds(requests: int, c: int)
    requires
        requests >= 0,
        c > 0,
    ensures
        ((requests + c - 1) / c) * c >= requests,
        ((requests + c - 1) / c - 1) * c < requests || requests == 0,
        (requests + c - 1) / c >= 0,
{
    lemma_fundamental_div_mod(requests + c - 1, c);
    let n = (requests + c - 1) / c;
    let m = (requests + c - 1) % c;
    assert(n * c >= requests && ((n - 1) * c < requests || requests == 0) && n >= 0)
        by (nonlinear_arith)
        requires
            requests + c - 1 == c * n + m,
            0 <= m < c,
            requests >= 0,
    ;
}

/// The partition covers the request indices exactly once: every emitted range
/// is non-empty and lies within `[0, requests)`, the ranges come in order
/// without overlap, and every index below `requests` lies in one of them.
pub proof fn lemma_partition_covers(requests: nat, workers: nat)
    requires
        workers >= 1,
    ensures
        forall|k: int|
            0 <= k < work_ranges(requests, workers).len() ==> {
                let r = #[trigger] work_ranges(requests, workers)[k];
                0 <= r.0 < r.1 <= requests
            },
        forall|k1: int, k2: int|
            0 <= k1 < k2 < work_ranges(requests, workers).len() ==> #[trigger] work_ranges(
                requests,
                workers,
            )[k1].1 <= #[trigger] work_ranges(requests, workers)[k2].0,
        forall|x: int| 0 <= x < requests ==> #[trigger] in_some_range(work_ranges(requests, workers), x),
{
    let rs = work_ranges(requests, workers);
    let c = chunk_size(requests, workers) as int;
    let w = workers as int;
    lemma_chunk(requests as int, w);
    if requests == 0 {
        assert(rs.len() == 0);
        return;
    }
    lemma_ceil_bounds(requests as int, c);
    let needed = (requests + c - 1) / c;
    assert forall|k: int| 0 <= k < rs.len() implies {
        let r = #[trigger] rs[k];
        0 <= r.0 < r.1 <= requests
    } by {
        assert(k <= needed - 1);
        assert(k * c <= (needed - 1) * c && k * c >= 0) by (nonlinear_arith)
            requires
                0 <= k <= needed - 1,
                c > 0,
        ;
        assert((k + 1) * c > k * c) by (nonlinear_arith)
            requires
                c > 0,
        ;
    }
    assert forall|k1: int, k2: int| 0 <= k1 < k2 < rs.len() implies #[trigger] rs[k1].1
        <= #[trigger] rs[k2].0 by {
        assert((k1 + 1) * c <= k2 * c) by (nonlinear_arith)
            requires
                k1 < k2,
                c > 0,
        ;
    }
    assert forall|x: int| 0 <= x < requests implies #[trigger] in_some_range(rs, x) by {
        lemma_fundamental_div_mod(x, c);
        let k = x / c;
        assert(k * c <= x < (k + 1) * c && k >= 0) by (nonlinear_arith)
            requires
                x == c * (x / c) + x % c,
                0 <= x % c < c,
                k == x / c,
                x >= 0,
        ;
        assert(k < needed) by (nonlinear_arith)
            requires
                k * c <= x,
                x < requests,
                requests <= needed * c,
                c > 0,
        ;
        assert(k < w) by (nonlinear_arith)
            requires
                k * c <= x,
                x < requests,
                requests <= c * w,
                c > 0,
        ;
        assert(0 <= k < rs.len() && rs[k].0 <= x < rs[k].1);
    }
}

/// Consecutive ranges meet, the first starts at 0 and the last ends at `requests`.
pub proof fn lemma_partition_contiguous(requests: nat, workers: nat)
    ensures
        work_ranges(requests, workers).len() == 0 ==> requests == 0,
        work_ranges(requests, workers).len() > 0 ==> work_ranges(requests, workers)[0].0 == 0,
        work_ranges(requests, workers).len() > 0 ==> work_ranges(requests, workers).last().1
            == requests,
        forall|k: int|
            0 < k < work_ranges(requests, workers).len() ==> #[trigger] work_ranges(
                requests,
                workers,
            )[k].0 == work_ranges(requests, workers)[k - 1].1,
{
    let rs = work_ranges(requests, workers);
    let c = chunk_size(requests, workers) as int;
    let w = effective_workers(workers) as int;
    lemma_chunk(requests as int, w);
    if requests == 0 {
        assert(rs.len() == 0);
        return;
    }
    lemma_ceil_bounds(requests as int, c);
    let needed = (requests + c - 1) / c;
    assert(needed > 0) by (nonlinear_arith)
        requires
            needed * c >= requests,
            requests > 0,
            needed >= 0,
    ;
    assert forall|k: int| 0 < k < rs.len() implies #[trigger] rs[k].0 == rs[k - 1].1 by {
        assert(k * c <= (needed - 1) * c) by (nonlinear_arith)
            requires
                0 <= k <= needed - 1,
                c > 0,
        ;
        assert(((k - 1) as nat + 1) * c == k * c);
    }
    assert(0 * c == 0);
    let last = rs.len() - 1;
    if rs.len() == needed {
        assert((last + 1) * c >= requests);
    } else {
        assert(rs.len() == w);
        assert(w * c >= requests) by (nonlinear_arith)
            requires
                c * w >= requests,
        ;
        assert((last + 1) * c >= requests);
    }
}

/// When every worker's formula range is non-empty (there are at least as many
/// requests as workers need for the last one to start below `requests`), the
/// partition has `min(workers, requests)` ranges.
pub proof fn lemma_partition_count(requests: nat, workers: nat)
    requires
        workers >= 1,
        requests > 0,
        workers >= requests || (workers - 1) * chunk_size(requests, workers) < requests,
    ensures
        work_ranges(requests, workers).len() == if workers < requests {
            workers
        } else {
            requests
        },
{
    let c = chunk_size(requests, workers) as int;
    let w = workers as int;
    let r = requests as int;
    lemma_chunk(r, w);
    lemma_ceil_bounds(r, c);
    if w >= r {
        lemma_fundamental_div_mod(r + w - 1, w);
        assert(c == 1) by (nonlinear_arith)
            requires
                r + w - 1 == w * c + (r + w - 1) % w,
                0 <= (r + w - 1) % w < w,
                w >= r,
                r > 0,
                c > 0,
        ;
        lemma_ceil_is(r, 1, r);
    } else {
        assert(c * w >= r);
        assert(w * c >= r) by (nonlinear_arith)
            requires
                c * w >= r,
        ;
        lemma_ceil_is(r, c, w);
    }
}

} // verus!
