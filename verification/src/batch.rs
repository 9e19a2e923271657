//! Batches of query points: one answer for each point, in the order of the
//! points, whichever way the work is split.

use vstd::prelude::*;
use crate::chunks::{
    chunk_bounds, chunk_count, chunk_end, chunk_start, chunks_partition, lemma_chunks_partition,
    Chunk,
};
use crate::edge::EdgeProbe;
use crate::point::Point;
use crate::polygon::{degenerate, edge_count, Polygon};
use crate::table::ShapeError;
use crate::verdict::{inside, walk_edges};

verus! {

/// The size of the worker pool that a parallel run is split for.
pub const POOL_SIZE: usize = 8;

/// The rows of probes as sequences.
pub open spec fn probe_rows(probes: Seq<Vec<EdgeProbe>>) -> Seq<Seq<EdgeProbe>> {
    Seq::new(probes.len(), |i: int| probes[i]@)
}

/// There is one row of probes for each point, and each row holds one probe
/// for each edge.
pub open spec fn probes_fit(points: nat, edges: nat, rows: Seq<Seq<EdgeProbe>>) -> bool {
    rows.len() == points && forall|i: int| 0 <= i < rows.len() ==> (#[trigger] rows[i]).len() == edges
}

/// `fault` names what is wrong with the shape of the probes: the number of
/// rows, or else the first row of the wrong length.
pub open spec fn probes_fault(
    points: nat,
    edges: nat,
    rows: Seq<Seq<EdgeProbe>>,
    fault: ShapeError,
) -> bool {
    match fault {
        ShapeError::ProbeRows { points: expected, found } => {
            expected == points && found == rows.len() && found != points
        },
        ShapeError::ProbeRow { row, edges: expected, found } => {
            &&& rows.len() == points
            &&& row < rows.len()
            &&& expected == edges
            &&& found == rows[row as int].len()
            &&& found != edges
            &&& forall|j: int| 0 <= j < row ==> (#[trigger] rows[j]).len() == edges
        },
        _ => false,
    }
}

/// The answers for a batch: answer `i` is the decision for point `i`, made
/// with row `i` of the probes.
pub open spec fn verdicts(
    points: Seq<Point>,
    ring: Seq<Point>,
    rows: Seq<Seq<EdgeProbe>>,
    include_edges: bool,
) -> Seq<bool> {
    Seq::new(points.len(), |i: int| inside(points[i], ring, rows[i], include_edges))
}

/// The output slots after a worker has written the answers of the chunk
/// from `start` to `end`: the slots of the chunk hold their answers, all
/// others are as they were.
pub open spec fn chunk_written(slots: Seq<bool>, answers: Seq<bool>, start: int, end: int) -> Seq<
    bool,
> {
    Seq::new(
        slots.len(),
        |i: int|
            if start <= i < end {
                answers[i]
            } else {
                slots[i]
            },
    )
}

/// Checks the shape of the probes before any point is looked at.
fn check_probes(points: usize, edges: usize, probes: &Vec<Vec<EdgeProbe>>) -> (checked: Result<
    (),
    ShapeError,
>)
    ensures
        checked is Ok <==> probes_fit(points as nat, edges as nat, probe_rows(probes@)),
        checked matches Err(fault) ==> probes_fault(
            points as nat,
            edges as nat,
            probe_rows(probes@),
            fault,
        ),
{
    if probes.len() != points {
        return Err(ShapeError::ProbeRows { points, found: probes.len() });
    }
    let mut row: usize = 0;
    while row < points
        invariant
            row <= points,
            probes.len() == points,
            forall|j: int| 0 <= j < row ==> (#[trigger] probe_rows(probes@)[j]).len() == edges,
        decreases points - row,
    {
        let found: usize = probes[row].len();
        if found != edges {
            assert(probe_rows(probes@)[row as int].len() == found);
            return Err(ShapeError::ProbeRow { row, edges, found });
        }
        row += 1;
    }
    Ok(())
}

/// What one worker does: writes the answers for the points of one chunk
/// into the slots of that chunk, and touches no other slot.
fn write_chunk(
    slots: &mut Vec<bool>,
    points: &Vec<Point>,
    polygon: &Polygon,
    probes: &Vec<Vec<EdgeProbe>>,
    no_area: bool,
    include_edges: bool,
    chunk: Chunk,
)
    requires
        old(slots).len() == points.len(),
        probes_fit(points.len() as nat, edge_count(polygon@), probe_rows(probes@)),
        no_area == degenerate(polygon@),
        chunk.start <= chunk.end <= points.len(),
    ensures
        final(slots)@ == chunk_written(
            old(slots)@,
            verdicts(points@, polygon@, probe_rows(probes@), include_edges),
            chunk.start as int,
            chunk.end as int,
        ),
{
    let ghost answers = verdicts(points@, polygon@, probe_rows(probes@), include_edges);
    let mut i: usize = chunk.start;
    while i < chunk.end
        invariant
            chunk.start <= i <= chunk.end <= points.len(),
            slots.len() == points.len(),
            probes_fit(points.len() as nat, edge_count(polygon@), probe_rows(probes@)),
            no_area == degenerate(polygon@),
            answers == verdicts(points@, polygon@, probe_rows(probes@), include_edges),
            forall|j: int| chunk.start <= j < i ==> slots@[j] == answers[j],
            forall|j: int|
                0 <= j < slots.len() && !(chunk.start <= j < i) ==> slots@[j] == old(slots)@[j],
        decreases chunk.end - i,
    {
        assert(probe_rows(probes@)[i as int] == probes@[i as int]@);
        let verdict: bool = if no_area {
            false
        } else {
            walk_edges(&points[i], polygon, &probes[i], include_edges)
        };
        slots.set(i, verdict);
        i += 1;
    }
    assert(slots@ =~= chunk_written(old(slots)@, answers, chunk.start as int, chunk.end as int));
}

/// Classifies a batch of points against one polygon.
///
/// `probes` holds one row for each point, and each row one probe for each
/// edge of the ring. Where it does not, the call is turned down before any
/// point is looked at. Otherwise answer `i` says whether point `i` counts
/// as inside.
///
/// `parallel` chooses how the work is split, never what comes out: a
/// parallel run walks the chunks of a pool of `POOL_SIZE` workers, each
/// chunk written into its own slots of the output; a serial run walks the
/// points in their order.
pub fn classify(
    points: &Vec<Point>,
    polygon: &Polygon,
    probes: &Vec<Vec<EdgeProbe>>,
    include_edges: bool,
    parallel: bool,
) -> (answer: Result<Vec<bool>, ShapeError>)
    ensures
        answer is Ok <==> probes_fit(
            points.len() as nat,
            edge_count(polygon@),
            probe_rows(probes@),
        ),
        answer matches Ok(flags) ==> flags@ == verdicts(
            points@,
            polygon@,
            probe_rows(probes@),
            include_edges,
        ),
        answer matches Err(fault) ==> probes_fault(
            points.len() as nat,
            edge_count(polygon@),
            probe_rows(probes@),
            fault,
        ),
{
    let n: usize = points.len();
    match check_probes(n, polygon.edges(), probes) {
        Err(fault) => {
            return Err(fault);
        },
        Ok(_) => {},
    }
    let no_area: bool = polygon.is_degenerate();
    let ghost answers = verdicts(points@, polygon@, probe_rows(probes@), include_edges);
    let mut slots: Vec<bool> = vec![false; n];
    if parallel {
        let bounds: Vec<Chunk> = chunk_bounds(n, POOL_SIZE);
        proof {
            lemma_chunks_partition(n as nat, POOL_SIZE as nat);
        }
        let mut k: usize = 0;
        while k < bounds.len()
            invariant
                k <= bounds.len(),
                n == points.len(),
                slots.len() == n,
                bounds.len() == chunk_count(n as nat, POOL_SIZE as nat),
                forall|c: int|
                    0 <= c < bounds.len() ==> (#[trigger] bounds[c]).start == chunk_start(
                        n as nat,
                        POOL_SIZE as nat,
                        c,
                    ) && bounds[c].end == chunk_end(n as nat, POOL_SIZE as nat, c),
                chunks_partition(n as nat, POOL_SIZE as nat),
                probes_fit(n as nat, edge_count(polygon@), probe_rows(probes@)),
                no_area == degenerate(polygon@),
                answers == verdicts(points@, polygon@, probe_rows(probes@), include_edges),
                k < bounds.len() ==> forall|j: int|
                    0 <= j < chunk_start(n as nat, POOL_SIZE as nat, k as int) ==> slots@[j]
                        == answers[j],
                k == bounds.len() ==> forall|j: int| 0 <= j < n ==> slots@[j] == answers[j],
            decreases bounds.len() - k,
        {
            let chunk: Chunk = bounds[k];
            assert(chunk.start == chunk_start(n as nat, POOL_SIZE as nat, k as int));
            assert(chunk.end == chunk_end(n as nat, POOL_SIZE as nat, k as int));
            write_chunk(&mut slots, points, polygon, probes, no_area, include_edges, chunk);
            k += 1;
        }
    } else {
        write_chunk(
            &mut slots,
            points,
            polygon,
            probes,
            no_area,
            include_edges,
            Chunk { start: 0, end: n },
        );
    }
    assert(slots@ =~= answers);
    Ok(slots)
}

} // verus!
