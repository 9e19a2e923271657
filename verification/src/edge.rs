//! One query point against one edge: the edge-membership test and the
//! ray-crossing test.

use vstd::prelude::*;
use crate::point::Point;

verus! {

/// What arithmetic on the coordinates themselves finds for one query point
/// and one edge of the ring. Ranks cannot give these two answers, so the
/// caller supplies them.
#[derive(Clone, Copy, Debug, PartialEq, Eq)]
pub struct EdgeProbe {
    /// The cross product of the edge, taken from its first vertex to its
    /// second, with the vector from the first vertex to the point is
    /// exactly zero.
    pub collinear: bool,
    /// The abscissa at which the edge's line meets the horizontal through
    /// the point is greater than the point's own.
    pub crosses_right: bool,
}

/// `v` lies between `a` and `b`, whichever of the two is the greater; both
/// ends count.
pub open spec fn between(v: int, a: int, b: int) -> bool {
    (a <= v <= b) || (b <= v <= a)
}

/// `p` lies in the bounding box of the segment from `a` to `b`, the box's
/// border included.
pub open spec fn in_box(p: Point, a: Point, b: Point) -> bool {
    between(p.x as int, a.x as int, b.x as int) && between(p.y as int, a.y as int, b.y as int)
}

/// `p` lies on the closed segment from `a` to `b`: on its line, and in its
/// bounding box.
pub open spec fn on_edge(p: Point, a: Point, b: Point, probe: EdgeProbe) -> bool {
    probe.collinear && in_box(p, a, b)
}

/// The edge from `a` to `b` straddles the horizontal ray from `p`: one end
/// lies strictly below the ray, the other on it or above.
pub open spec fn straddles(p: Point, a: Point, b: Point) -> bool {
    (a.y < p.y && b.y >= p.y) || (b.y < p.y && a.y >= p.y)
}

/// The edge from `a` to `b` is crossed by the ray that runs from `p` towards
/// greater abscissas.
pub open spec fn crosses(p: Point, a: Point, b: Point, probe: EdgeProbe) -> bool {
    straddles(p, a, b) && probe.crosses_right
}

/// The edge-membership test.
pub fn edge_membership(p: &Point, a: &Point, b: &Point, probe: &EdgeProbe) -> (hit: bool)
    ensures
        hit == on_edge(*p, *a, *b, *probe),
{
    probe.collinear && ((a.x <= p.x && p.x <= b.x) || (b.x <= p.x && p.x <= a.x)) && ((a.y <= p.y
        && p.y <= b.y) || (b.y <= p.y && p.y <= a.y))
}

/// The ray-crossing test.
pub fn ray_crossing(p: &Point, a: &Point, b: &Point, probe: &EdgeProbe) -> (hit: bool)
    ensures
        hit == crosses(*p, *a, *b, *probe),
{
    ((a.y < p.y && b.y >= p.y) || (b.y < p.y && a.y >= p.y)) && probe.crosses_right
}

/// An edge whose two ends have the same ordinate is crossed by no ray,
/// whatever the probe reports.
pub proof fn lemma_horizontal_edge_never_crossed(p: Point, a: Point, b: Point, probe: EdgeProbe)
    requires
        a.y == b.y,
    ensures
        !crosses(p, a, b, probe),
{
}

/// Where the ray from `p` passes through the vertex `v` and the neighbours
/// `u` and `w` of `v` lie strictly on opposite sides of the ray, exactly one
/// of the two edges that meet in `v` straddles the ray.
pub proof fn lemma_ray_through_vertex(p: Point, u: Point, v: Point, w: Point)
    requires
        v.y == p.y,
        (u.y < p.y && w.y > p.y) || (u.y > p.y && w.y < p.y),
    ensures
        straddles(p, u, v) != straddles(p, v, w),
{
}

/// Where the ray from `p` passes through the vertex `v` and both neighbours
/// of `v` lie strictly on the same side of the ray, either both edges that
/// meet in `v` straddle the ray or neither does.
pub proof fn lemma_ray_touches_vertex(p: Point, u: Point, v: Point, w: Point)
    requires
        v.y == p.y,
        (u.y < p.y && w.y < p.y) || (u.y > p.y && w.y > p.y),
    ensures
        straddles(p, u, v) == straddles(p, v, w),
{
}

/// Both ends of an edge lie in its bounding box, so each is on the edge as
/// soon as the probe finds it on the edge's line.
pub proof fn lemma_ends_in_box(a: Point, b: Point)
    ensures
        in_box(a, a, b),
        in_box(b, a, b),
{
}

} // verus!
