//! Arrays as they arrive: a flat run of bit patterns and a column count.

use vstd::prelude::*;
use crate::point::{rank_of_bits, Point};
use crate::polygon::Polygon;

verus! {

/// Which of the two coordinate arrays a fault was found in.
#[derive(Clone, Copy, Debug, PartialEq, Eq)]
pub enum ArrayName {
    Points,
    Polygon,
}

/// Why a call was turned down before any point was looked at.
#[derive(Clone, Copy, Debug, PartialEq, Eq)]
pub enum ShapeError {
    /// The array has `found` columns where an abscissa and an ordinate are
    /// needed: two.
    ColumnCount { array: ArrayName, found: usize },
    /// The array holds `cells` values, which do not make whole rows.
    PartialRow { array: ArrayName, cells: usize },
    /// There are `found` rows of probes for `points` points.
    ProbeRows { points: usize, found: usize },
    /// Row `row` of the probes holds `found` probes for `edges` edges.
    ProbeRow { row: usize, edges: usize, found: usize },
}

/// A two-dimensional array of binary64 values, given by their bit patterns
/// row after row.
#[derive(Debug, PartialEq, Eq)]
pub struct Table {
    pub cells: Vec<u64>,
    pub columns: usize,
}

/// The point that row `i` of a two-column array holds.
pub open spec fn row_point(cells: Seq<u64>, i: int) -> Point {
    Point { x: rank_of_bits(cells[2 * i]) as i64, y: rank_of_bits(cells[2 * i + 1]) as i64 }
}

/// The points that a two-column array holds, row by row.
pub open spec fn row_points(cells: Seq<u64>) -> Seq<Point> {
    Seq::new((cells.len() / 2) as nat, |i: int| row_point(cells, i))
}

/// The fault of a table as an array of points, if it has one: the column
/// count is looked at first.
pub open spec fn table_fault(cells: Seq<u64>, columns: usize, array: ArrayName) -> Option<
    ShapeError,
> {
    if columns != 2 {
        Some(ShapeError::ColumnCount { array, found: columns })
    } else if cells.len() % 2 != 0 {
        Some(ShapeError::PartialRow { array, cells: cells.len() as usize })
    } else {
        None
    }
}

/// The fault that turns a call down, if there is one: that of the points
/// comes before that of the polygon.
pub open spec fn arrays_fault(points: Table, polygon: Table) -> Option<ShapeError> {
    if table_fault(points.cells@, points.columns, ArrayName::Points) is Some {
        table_fault(points.cells@, points.columns, ArrayName::Points)
    } else {
        table_fault(polygon.cells@, polygon.columns, ArrayName::Polygon)
    }
}

impl Table {
    /// Reads the table as the array `array`: its points row by row, or the
    /// fault in its shape.
    pub fn points(&self, array: ArrayName) -> (read: Result<Vec<Point>, ShapeError>)
        ensures
            match read {
                Ok(points) => table_fault(self.cells@, self.columns, array) is None && points@
                    == row_points(self.cells@),
                Err(fault) => table_fault(self.cells@, self.columns, array) == Some(fault),
            },
    {
        if self.columns != 2 {
            return Err(ShapeError::ColumnCount { array, found: self.columns });
        }
        let len: usize = self.cells.len();
        if len % 2 != 0 {
            return Err(ShapeError::PartialRow { array, cells: len });
        }
        let rows: usize = len / 2;
        let mut points: Vec<Point> = Vec::with_capacity(rows);
        let mut i: usize = 0;
        while i < rows
            invariant
                i <= rows,
                rows == len / 2,
                len == self.cells.len(),
                len % 2 == 0,
                points.len() == i,
                forall|j: int| 0 <= j < i ==> points@[j] == row_point(self.cells@, j),
            decreases rows - i,
        {
            points.push(Point::from_bits(self.cells[2 * i], self.cells[2 * i + 1]));
            i += 1;
        }
        assert(points@ =~= row_points(self.cells@));
        Ok(points)
    }
}

/// Reads the two arrays of a call: the query points and the polygon's
/// ring, or the fault for which the call is turned down.
pub fn read_arrays(points: &Table, polygon: &Table) -> (read: Result<(Vec<Point>, Polygon), ShapeError>)
    ensures
        match read {
            Ok((queries, ring)) => {
                &&& arrays_fault(*points, *polygon) is None
                &&& queries@ == row_points(points.cells@)
                &&& ring@ == row_points(polygon.cells@)
            },
            Err(fault) => arrays_fault(*points, *polygon) == Some(fault),
        },
{
    let queries: Vec<Point> = match points.points(ArrayName::Points) {
        Ok(queries) => queries,
        Err(fault) => {
            return Err(fault);
        },
    };
    let ring: Vec<Point> = match polygon.points(ArrayName::Polygon) {
        Ok(ring) => ring,
        Err(fault) => {
            return Err(fault);
        },
    };
    Ok((queries, Polygon::new(ring)))
}

} // verus!
