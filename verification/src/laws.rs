//! What holds of every classification.

use vstd::prelude::*;
use crate::batch::{chunk_written, verdicts};
use crate::chunks::{chunk_count, chunk_end, chunk_start, lemma_chunk_of_index, lemma_chunks_partition};
use crate::edge::EdgeProbe;
use crate::point::Point;
use crate::polygon::degenerate;
use crate::verdict::{inside, on_boundary};

verus! {

/// The output slots after the chunks named in `order` have been written,
/// one after another.
pub open spec fn chunks_written(
    slots: Seq<bool>,
    answers: Seq<bool>,
    workers: nat,
    order: Seq<int>,
) -> Seq<bool>
    decreases order.len(),
{
    if order.len() == 0 {
        slots
    } else {
        chunk_written(
            chunks_written(slots, answers, workers, order.drop_last()),
            answers,
            chunk_start(answers.len(), workers, order.last()),
            chunk_end(answers.len(), workers, order.last()),
        )
    }
}

/// `order` names every chunk of the pool at least once, and nothing else.
pub open spec fn names_every_chunk(order: Seq<int>, n: nat, workers: nat) -> bool {
    &&& forall|t: int| 0 <= t < order.len() ==> 0 <= #[trigger] order[t] < chunk_count(n, workers)
    &&& forall|k: int| 0 <= k < chunk_count(n, workers) ==> order.contains(k)
}

/// `order` is a rearrangement of the indices below `n`.
pub open spec fn is_permutation(order: Seq<int>, n: nat) -> bool {
    &&& order.len() == n
    &&& forall|i: int| 0 <= i < n ==> 0 <= #[trigger] order[i] < n
    &&& forall|i: int, j: int| 0 <= i < j < n ==> order[i] != order[j]
}

/// The items of `s` in the order that `order` gives.
pub open spec fn permuted<A>(s: Seq<A>, order: Seq<int>) -> Seq<A> {
    Seq::new(order.len(), |i: int| s[order[i]])
}

/// After the chunks named in `order` are written, a slot holds its answer
/// where one of those chunks covers it, and is untouched otherwise.
proof fn lemma_slots_after(
    slots: Seq<bool>,
    answers: Seq<bool>,
    workers: nat,
    order: Seq<int>,
    i: int,
)
    requires
        slots.len() == answers.len(),
        0 <= i < slots.len(),
    ensures
        chunks_written(slots, answers, workers, order).len() == slots.len(),
        chunks_written(slots, answers, workers, order)[i] == if exists|t: int|
            0 <= t < order.len() && chunk_start(answers.len(), workers, #[trigger] order[t]) <= i
                < chunk_end(answers.len(), workers, order[t]) {
            answers[i]
        } else {
            slots[i]
        },
    decreases order.len(),
{
    if order.len() > 0 {
        let before = order.drop_last();
        lemma_slots_after(slots, answers, workers, before, i);
        let n = answers.len();
        let last = order.len() - 1;
        let covered_before = exists|t: int|
            0 <= t < before.len() && chunk_start(n, workers, #[trigger] before[t]) <= i < chunk_end(
                n,
                workers,
                before[t],
            );
        let covered = exists|t: int|
            0 <= t < order.len() && chunk_start(n, workers, #[trigger] order[t]) <= i < chunk_end(
                n,
                workers,
                order[t],
            );
        if covered_before {
            let t = choose|t: int|
                0 <= t < before.len() && chunk_start(n, workers, #[trigger] before[t]) <= i
                    < chunk_end(n, workers, before[t]);
            assert(order[t] == before[t]);
        }
        if covered && !covered_before {
            let t = choose|t: int|
                0 <= t < order.len() && chunk_start(n, workers, #[trigger] order[t]) <= i
                    < chunk_end(n, workers, order[t]);
            if t < last {
                assert(before[t] == order[t]);
            }
        }
    }
}

/// Determinism of the split: once every chunk of the pool has been
/// written, in whatever order the workers came to it, the output slots hold
/// the answers of the serial run, whatever they held before.
pub proof fn lemma_parallel_equals_serial(
    points: Seq<Point>,
    ring: Seq<Point>,
    rows: Seq<Seq<EdgeProbe>>,
    include_edges: bool,
    workers: nat,
    order: Seq<int>,
    slots: Seq<bool>,
)
    requires
        slots.len() == points.len(),
        names_every_chunk(order, points.len(), workers),
    ensures
        chunks_written(slots, verdicts(points, ring, rows, include_edges), workers, order)
            == verdicts(points, ring, rows, include_edges),
{
    let answers = verdicts(points, ring, rows, include_edges);
    let n = answers.len();
    let written = chunks_written(slots, answers, workers, order);
    assert forall|i: int| 0 <= i < n implies written[i] == answers[i] by {
        lemma_slots_after(slots, answers, workers, order, i);
        let k = lemma_chunk_of_index(n, workers, i);
        assert(order.contains(k));
        let t = choose|t: int| 0 <= t < order.len() && order[t] == k;
        assert(chunk_start(n, workers, order[t]) <= i < chunk_end(n, workers, order[t]));
    }
    if n == 0 {
        lemma_chunks_partition(n, workers);
        assert(order.len() == 0) by {
            if order.len() > 0 {
                assert(0 <= order[0] < chunk_count(n, workers));
            }
        }
    } else {
        lemma_slots_after(slots, answers, workers, order, 0);
    }
    assert(written =~= answers);
}

/// Order preservation: there are as many answers as points, and each
/// answer goes with its point. Rearranging the points, each with its row of
/// probes, rearranges the answers in the same way.
pub proof fn lemma_order_preserved(
    points: Seq<Point>,
    ring: Seq<Point>,
    rows: Seq<Seq<EdgeProbe>>,
    include_edges: bool,
    order: Seq<int>,
)
    requires
        rows.len() == points.len(),
        is_permutation(order, points.len()),
    ensures
        verdicts(points, ring, rows, include_edges).len() == points.len(),
        verdicts(permuted(points, order), ring, permuted(rows, order), include_edges) == permuted(
            verdicts(points, ring, rows, include_edges),
            order,
        ),
{
    assert(verdicts(permuted(points, order), ring, permuted(rows, order), include_edges)
        =~= permuted(verdicts(points, ring, rows, include_edges), order));
}

/// The answers for a run of neighbouring points are the answers that the
/// whole batch has at their places.
pub proof fn lemma_answers_of_a_run(
    points: Seq<Point>,
    ring: Seq<Point>,
    rows: Seq<Seq<EdgeProbe>>,
    include_edges: bool,
    start: int,
    end: int,
)
    requires
        rows.len() == points.len(),
        0 <= start <= end <= points.len(),
    ensures
        verdicts(points.subrange(start, end), ring, rows.subrange(start, end), include_edges)
            == verdicts(points, ring, rows, include_edges).subrange(start, end),
{
    assert(verdicts(points.subrange(start, end), ring, rows.subrange(start, end), include_edges)
        =~= verdicts(points, ring, rows, include_edges).subrange(start, end));
}

/// Boundary symmetry: against a ring that is not degenerate, a point on an
/// edge counts as inside where edges are included, and as outside where
/// they are not.
pub proof fn lemma_boundary_symmetry(p: Point, ring: Seq<Point>, probes: Seq<EdgeProbe>)
    requires
        !degenerate(ring),
        on_boundary(p, ring, probes),
    ensures
        inside(p, ring, probes, true),
        !inside(p, ring, probes, false),
{
}

/// A degenerate ring holds no point, whatever the probes and the policy
/// say.
pub proof fn lemma_degenerate_holds_nothing(
    points: Seq<Point>,
    ring: Seq<Point>,
    rows: Seq<Seq<EdgeProbe>>,
    include_edges: bool,
)
    requires
        degenerate(ring),
    ensures
        forall|p: Point, probes: Seq<EdgeProbe>| !#[trigger] inside(p, ring, probes, include_edges),
        forall|i: int|
            0 <= i < points.len() ==> !#[trigger] verdicts(points, ring, rows, include_edges)[i],
{
}

} // verus!
