//! The decision for one query point.

use vstd::prelude::*;
use crate::edge::{crosses, edge_membership, on_edge, ray_crossing, EdgeProbe};
use crate::point::Point;
use crate::polygon::{degenerate, edge_count, Polygon};

verus! {

/// `p` lies on edge `i` of the ring.
pub open spec fn edge_touched(p: Point, ring: Seq<Point>, probes: Seq<EdgeProbe>, i: int) -> bool {
    on_edge(p, ring[i], ring[i + 1], probes[i])
}

/// The ray from `p` crosses edge `i` of the ring.
pub open spec fn edge_crossed(p: Point, ring: Seq<Point>, probes: Seq<EdgeProbe>, i: int) -> bool {
    crosses(p, ring[i], ring[i + 1], probes[i])
}

/// `p` lies on the boundary: on at least one edge of the ring.
pub open spec fn on_boundary(p: Point, ring: Seq<Point>, probes: Seq<EdgeProbe>) -> bool {
    exists|i: int| 0 <= i < edge_count(ring) && #[trigger] edge_touched(p, ring, probes, i)
}

/// How many of the first `n` edges of the ring the ray from `p` crosses.
pub open spec fn crossings(p: Point, ring: Seq<Point>, probes: Seq<EdgeProbe>, n: nat) -> nat
    decreases n,
{
    if n == 0 {
        0
    } else {
        let rest = crossings(p, ring, probes, (n - 1) as nat);
        if edge_crossed(p, ring, probes, n - 1) {
            rest + 1
        } else {
            rest
        }
    }
}

/// Whether `p` counts as inside the polygon with the ring `ring`, where
/// `probes` holds one probe for each edge, in the order of the edges.
///
/// A degenerate ring holds no point. A point on the boundary is as the
/// policy `include_edges` says. Any other point is inside where its ray
/// crosses an odd number of edges.
pub open spec fn inside(
    p: Point,
    ring: Seq<Point>,
    probes: Seq<EdgeProbe>,
    include_edges: bool,
) -> bool {
    if degenerate(ring) {
        false
    } else if on_boundary(p, ring, probes) {
        include_edges
    } else {
        crossings(p, ring, probes, edge_count(ring)) % 2 == 1
    }
}

/// Walks the edges of a ring that is known not to be degenerate.
pub(crate) fn walk_edges(
    p: &Point,
    polygon: &Polygon,
    probes: &Vec<EdgeProbe>,
    include_edges: bool,
) -> (verdict: bool)
    requires
        !degenerate(polygon@),
        probes.len() == edge_count(polygon@),
    ensures
        verdict == inside(*p, polygon@, probes@, include_edges),
{
    let edges: usize = polygon.edges();
    let mut odd: bool = false;
    let mut i: usize = 0;
    while i < edges
        invariant
            i <= edges,
            !degenerate(polygon@),
            edges == edge_count(polygon@),
            probes.len() == edges,
            forall|j: int| 0 <= j < i ==> !edge_touched(*p, polygon@, probes@, j),
            odd == (crossings(*p, polygon@, probes@, i as nat) % 2 == 1),
        decreases edges - i,
    {
        let a: &Point = &polygon.ring[i];
        let b: &Point = &polygon.ring[i + 1];
        if edge_membership(p, a, b, &probes[i]) {
            assert(edge_touched(*p, polygon@, probes@, i as int));
            return include_edges;
        }
        if ray_crossing(p, a, b, &probes[i]) {
            odd = !odd;
        }
        i += 1;
    }
    odd
}

/// Classifies one point: `Some` of whether it counts as inside, or `None`
/// where `probes` does not hold exactly one probe for each edge.
pub fn classify_point(
    p: &Point,
    polygon: &Polygon,
    probes: &Vec<EdgeProbe>,
    include_edges: bool,
) -> (verdict: Option<bool>)
    ensures
        verdict is Some <==> probes.len() == edge_count(polygon@),
        verdict matches Some(v) ==> v == inside(*p, polygon@, probes@, include_edges),
{
    if probes.len() != polygon.edges() {
        return None;
    }
    if polygon.is_degenerate() {
        return Some(false);
    }
    Some(walk_edges(p, polygon, probes, include_edges))
}

} // verus!
