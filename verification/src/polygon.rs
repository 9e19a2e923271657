//! The ring of a polygon.

use vstd::prelude::*;
use vstd::seq_lib::seq_to_set_is_finite;
use vstd::set_lib::lemma_len_subset;
use crate::point::Point;

verus! {

/// A polygon given by its ring: the vertices in order, the first one
/// repeated at the end. Nothing checks that the ring is closed; the edges
/// are the pairs of neighbours in the ring as it is stored.
#[derive(Debug, PartialEq, Eq)]
pub struct Polygon {
    pub ring: Vec<Point>,
}

impl View for Polygon {
    type V = Seq<Point>;

    open spec fn view(&self) -> Seq<Point> {
        self.ring@
    }
}

/// The number of edges of a ring: one less than its stored vertices, and
/// none for an empty ring.
pub open spec fn edge_count(ring: Seq<Point>) -> nat {
    if ring.len() == 0 {
        0
    } else {
        (ring.len() - 1) as nat
    }
}

/// The number of distinct vertices of a ring.
pub open spec fn distinct_vertices(ring: Seq<Point>) -> nat {
    ring.to_set().len()
}

/// A ring with fewer than three distinct vertices encloses no area.
pub open spec fn degenerate(ring: Seq<Point>) -> bool {
    distinct_vertices(ring) < 3
}

/// A ring in which every vertex is `a` or `b` has at most two distinct
/// vertices.
proof fn lemma_two_values_are_degenerate(ring: Seq<Point>, a: Point, b: Point)
    requires
        forall|i: int| 0 <= i < ring.len() ==> ring[i] == a || ring[i] == b,
    ensures
        degenerate(ring),
{
    let pair = Set::<Point>::empty().insert(a).insert(b);
    assert(ring.to_set().subset_of(pair));
    lemma_len_subset(ring.to_set(), pair);
}

/// A ring that holds three different vertices is not degenerate.
proof fn lemma_three_values_are_not_degenerate(ring: Seq<Point>, i: int, j: int, k: int)
    requires
        0 <= i < ring.len(),
        0 <= j < ring.len(),
        0 <= k < ring.len(),
        ring[i] != ring[j],
        ring[i] != ring[k],
        ring[j] != ring[k],
    ensures
        !degenerate(ring),
{
    let three = Set::<Point>::empty().insert(ring[i]).insert(ring[j]).insert(ring[k]);
    assert(ring.contains(ring[i]));
    assert(ring.contains(ring[j]));
    assert(ring.contains(ring[k]));
    assert(three.subset_of(ring.to_set()));
    seq_to_set_is_finite(ring);
    lemma_len_subset(three, ring.to_set());
}

impl Polygon {
    /// The polygon with the ring `ring`.
    pub fn new(ring: Vec<Point>) -> (polygon: Polygon)
        ensures
            polygon@ == ring@,
    {
        Polygon { ring }
    }

    /// The number of edges.
    pub fn edges(&self) -> (count: usize)
        ensures
            count == edge_count(self@),
    {
        if self.ring.len() == 0 {
            0
        } else {
            self.ring.len() - 1
        }
    }

    /// Whether the ring has fewer than three distinct vertices.
    pub fn is_degenerate(&self) -> (yes: bool)
        ensures
            yes == degenerate(self@),
    {
        let n: usize = self.ring.len();
        if n == 0 {
            proof {
                lemma_two_values_are_degenerate(self@, Point { x: 0, y: 0 }, Point { x: 0, y: 0 });
            }
            return true;
        }
        let first: Point = self.ring[0];
        let mut j: usize = 1;
        while j < n && self.ring[j].x == first.x && self.ring[j].y == first.y
            invariant
                n == self.ring.len(),
                1 <= j <= n,
                first == self.ring[0],
                forall|i: int| 0 <= i < j ==> self@[i] == first,
            decreases n - j,
        {
            j += 1;
        }
        if j == n {
            proof {
                lemma_two_values_are_degenerate(self@, first, first);
            }
            return true;
        }
        let second: Point = self.ring[j];
        let mut k: usize = j + 1;
        while k < n && ((self.ring[k].x == first.x && self.ring[k].y == first.y) || (self.ring[k].x
            == second.x && self.ring[k].y == second.y))
            invariant
                n == self.ring.len(),
                j < k <= n,
                first == self.ring[0],
                second == self.ring[j as int],
                first != second,
                forall|i: int| 0 <= i < k ==> self@[i] == first || self@[i] == second,
            decreases n - k,
        {
            k += 1;
        }
        if k == n {
            proof {
                lemma_two_values_are_degenerate(self@, first, second);
            }
            return true;
        }
        proof {
            lemma_three_values_are_not_degenerate(self@, 0, j as int, k as int);
        }
        false
    }
}

} // verus!
