use pyinpoly::{
    chunk_bounds, edge_membership, rank_from_bits, ray_crossing, read_arrays, ArrayName, Chunk,
    EdgeProbe, Point, Polygon, ShapeError, Table,
};

fn at(x: f64, y: f64) -> Point {
    Point::from_bits(x.to_bits(), y.to_bits())
}

fn bits(values: &[f64]) -> Vec<u64> {
    values.iter().map(|v| v.to_bits()).collect()
}

fn spans(n: usize, workers: usize) -> Vec<(usize, usize)> {
    chunk_bounds(n, workers).iter().map(|c| (c.start, c.end)).collect()
}

const ON_LINE: EdgeProbe = EdgeProbe { collinear: true, crosses_right: false };
const TO_THE_RIGHT: EdgeProbe = EdgeProbe { collinear: false, crosses_right: true };
const NOTHING: EdgeProbe = EdgeProbe { collinear: false, crosses_right: false };

#[test]
fn rank_of_known_patterns() {
    assert_eq!(rank_from_bits(0.0f64.to_bits()), 0);
    assert_eq!(rank_from_bits((-0.0f64).to_bits()), 0);
    assert_eq!(rank_from_bits(1.0f64.to_bits()), 0x3ff0_0000_0000_0000);
    assert_eq!(rank_from_bits((-1.0f64).to_bits()), -0x3ff0_0000_0000_0000);
    assert_eq!(rank_from_bits(0x0000_0000_0000_0001), 1);
    assert_eq!(rank_from_bits(0x8000_0000_0000_0001), -1);
    assert_eq!(rank_from_bits(f64::INFINITY.to_bits()), 0x7ff0_0000_0000_0000);
    assert_eq!(rank_from_bits(f64::NEG_INFINITY.to_bits()), -0x7ff0_0000_0000_0000);
    assert_eq!(rank_from_bits(u64::MAX), -i64::MAX);
    assert_eq!(rank_from_bits(0x7fff_ffff_ffff_ffff), i64::MAX);
}

#[test]
fn ranks_order_as_the_numbers_do() {
    let values = [
        f64::NEG_INFINITY,
        f64::MIN,
        -1.0e300,
        -2.5,
        -1.0,
        -0.5,
        -f64::MIN_POSITIVE,
        -5.0e-324,
        -0.0,
        0.0,
        5.0e-324,
        f64::MIN_POSITIVE,
        0.1,
        0.5,
        1.0,
        1.0 + f64::EPSILON,
        2.5,
        1.0e300,
        f64::MAX,
        f64::INFINITY,
    ];
    for a in values {
        for b in values {
            let ra = rank_from_bits(a.to_bits());
            let rb = rank_from_bits(b.to_bits());
            assert_eq!(ra < rb, a < b);
            assert_eq!(ra == rb, a == b);
            assert_eq!(ra >= rb, a >= b);
        }
    }
}

#[test]
fn point_from_bits_ranks_both_coordinates() {
    let p = at(-1.0, 0.5);
    assert_eq!(p, Point { x: -0x3ff0_0000_0000_0000, y: 0x3fe0_0000_0000_0000 });
}

#[test]
fn membership_needs_the_line_and_the_box() {
    let a = at(0.0, 0.0);
    let b = at(2.0, 1.0);
    assert!(edge_membership(&at(1.0, 0.5), &a, &b, &ON_LINE));
    assert!(edge_membership(&at(1.0, 0.5), &b, &a, &ON_LINE));
    assert!(!edge_membership(&at(1.0, 0.5), &a, &b, &NOTHING));
    assert!(!edge_membership(&at(1.0, 0.5), &a, &b, &TO_THE_RIGHT));
    // On the line, beyond either end.
    assert!(!edge_membership(&at(4.0, 2.0), &a, &b, &ON_LINE));
    assert!(!edge_membership(&at(-2.0, -1.0), &a, &b, &ON_LINE));
    // The border of the box counts.
    assert!(edge_membership(&a, &a, &b, &ON_LINE));
    assert!(edge_membership(&b, &a, &b, &ON_LINE));
    assert!(edge_membership(&at(3.0, 7.0), &at(3.0, 7.0), &at(3.0, 7.0), &ON_LINE));
}

#[test]
fn crossing_needs_a_straddling_edge() {
    let p = at(0.0, 1.0);
    // Upwards and downwards through the ray.
    assert!(ray_crossing(&p, &at(1.0, 0.0), &at(1.0, 2.0), &TO_THE_RIGHT));
    assert!(ray_crossing(&p, &at(1.0, 2.0), &at(1.0, 0.0), &TO_THE_RIGHT));
    assert!(!ray_crossing(&p, &at(1.0, 0.0), &at(1.0, 2.0), &NOTHING));
    // An end on the ray counts with the part above only.
    assert!(ray_crossing(&p, &at(1.0, 0.0), &at(1.0, 1.0), &TO_THE_RIGHT));
    assert!(!ray_crossing(&p, &at(1.0, 1.0), &at(1.0, 2.0), &TO_THE_RIGHT));
    // Wholly below, wholly above.
    assert!(!ray_crossing(&p, &at(1.0, 0.0), &at(1.0, 0.5), &TO_THE_RIGHT));
    assert!(!ray_crossing(&p, &at(1.0, 1.5), &at(1.0, 2.0), &TO_THE_RIGHT));
}

#[test]
fn horizontal_edge_is_never_crossed() {
    for y in [0.0, 1.0, 2.0] {
        assert!(!ray_crossing(&at(0.0, 1.0), &at(1.0, y), &at(3.0, y), &TO_THE_RIGHT));
        assert!(!ray_crossing(&at(0.0, 1.0), &at(3.0, y), &at(1.0, y), &TO_THE_RIGHT));
    }
}

#[test]
fn edges_are_one_fewer_than_vertices() {
    assert_eq!(Polygon::new(Vec::new()).edges(), 0);
    assert_eq!(Polygon::new(vec![at(0.0, 0.0)]).edges(), 0);
    assert_eq!(Polygon::new(vec![at(0.0, 0.0), at(1.0, 0.0)]).edges(), 1);
    assert_eq!(Polygon::new(vec![at(0.0, 0.0), at(1.0, 0.0), at(0.0, 1.0), at(0.0, 0.0)]).edges(), 3);
}

#[test]
fn degenerate_means_fewer_than_three_distinct_vertices() {
    let a = at(0.0, 0.0);
    let b = at(1.0, 0.0);
    let c = at(0.0, 1.0);
    assert!(Polygon::new(Vec::new()).is_degenerate());
    assert!(Polygon::new(vec![a]).is_degenerate());
    assert!(Polygon::new(vec![a, a, a, a]).is_degenerate());
    assert!(Polygon::new(vec![a, b, a]).is_degenerate());
    assert!(Polygon::new(vec![a, a, b, b, a, b, a]).is_degenerate());
    assert!(!Polygon::new(vec![a, b, c, a]).is_degenerate());
    assert!(!Polygon::new(vec![a, a, b, a, b, c]).is_degenerate());
    assert!(!Polygon::new(vec![a, b, c]).is_degenerate());
}

#[test]
fn chunks_of_known_splits() {
    assert_eq!(spans(10, 3), vec![(0, 4), (4, 8), (8, 10)]);
    assert_eq!(spans(9, 3), vec![(0, 3), (3, 6), (6, 9)]);
    assert_eq!(spans(9, 8), vec![(0, 2), (2, 4), (4, 6), (6, 8), (8, 9)]);
    assert_eq!(spans(3, 8), vec![(0, 1), (1, 2), (2, 3)]);
    assert_eq!(spans(8, 8).len(), 8);
    assert_eq!(spans(1, 1), vec![(0, 1)]);
    assert_eq!(spans(7, 1), vec![(0, 7)]);
    assert_eq!(spans(7, 0), vec![(0, 7)]);
    assert_eq!(spans(0, 0), vec![]);
    assert_eq!(spans(0, 4), vec![]);
    assert_eq!(chunk_bounds(5, 2), vec![Chunk { start: 0, end: 3 }, Chunk { start: 3, end: 5 }]);
}

#[test]
fn chunks_cover_every_index_once() {
    for n in 0..40 {
        for workers in 0..12 {
            let chunks = spans(n, workers);
            assert!(chunks.len() <= workers.max(1));
            let mut next = 0;
            for (start, end) in chunks {
                assert_eq!(start, next);
                assert!(start < end);
                next = end;
            }
            assert_eq!(next, n);
        }
    }
}

#[test]
fn chunks_of_the_largest_range() {
    let chunks = spans(usize::MAX, 2);
    assert_eq!(chunks, vec![(0, usize::MAX / 2 + 1), (usize::MAX / 2 + 1, usize::MAX)]);
}

#[test]
fn table_rows_become_points() {
    let table = Table { cells: bits(&[0.0, 1.0, -1.0, 0.5, 2.0, -0.0]), columns: 2 };
    assert_eq!(
        table.points(ArrayName::Points),
        Ok(vec![at(0.0, 1.0), at(-1.0, 0.5), at(2.0, 0.0)])
    );
    let empty = Table { cells: Vec::new(), columns: 2 };
    assert_eq!(empty.points(ArrayName::Polygon), Ok(Vec::new()));
}

#[test]
fn wrong_column_count_names_the_array() {
    let three = Table { cells: bits(&[0.0, 1.0, 2.0, 3.0, 4.0, 5.0]), columns: 3 };
    let one = Table { cells: bits(&[0.0, 1.0]), columns: 1 };
    let none = Table { cells: Vec::new(), columns: 0 };
    let empty_but_wide = Table { cells: Vec::new(), columns: 3 };
    assert_eq!(
        three.points(ArrayName::Points),
        Err(ShapeError::ColumnCount { array: ArrayName::Points, found: 3 })
    );
    assert_eq!(
        one.points(ArrayName::Polygon),
        Err(ShapeError::ColumnCount { array: ArrayName::Polygon, found: 1 })
    );
    assert_eq!(
        none.points(ArrayName::Points),
        Err(ShapeError::ColumnCount { array: ArrayName::Points, found: 0 })
    );
    assert_eq!(
        empty_but_wide.points(ArrayName::Polygon),
        Err(ShapeError::ColumnCount { array: ArrayName::Polygon, found: 3 })
    );
}

#[test]
fn odd_number_of_cells_is_a_partial_row() {
    let torn = Table { cells: bits(&[0.0, 1.0, 2.0]), columns: 2 };
    assert_eq!(
        torn.points(ArrayName::Polygon),
        Err(ShapeError::PartialRow { array: ArrayName::Polygon, cells: 3 })
    );
}

#[test]
fn arrays_are_read_points_first() {
    let good_points = Table { cells: bits(&[0.5, 0.5, 2.0, 2.0]), columns: 2 };
    let good_ring = Table { cells: bits(&[0.0, 0.0, 1.0, 0.0, 0.0, 1.0, 0.0, 0.0]), columns: 2 };
    let wide = Table { cells: bits(&[0.0, 0.0, 0.0]), columns: 3 };
    let torn = Table { cells: bits(&[0.0]), columns: 2 };
    assert_eq!(
        read_arrays(&good_points, &good_ring),
        Ok((
            vec![at(0.5, 0.5), at(2.0, 2.0)],
            Polygon::new(vec![at(0.0, 0.0), at(1.0, 0.0), at(0.0, 1.0), at(0.0, 0.0)])
        ))
    );
    assert_eq!(
        read_arrays(&wide, &torn),
        Err(ShapeError::ColumnCount { array: ArrayName::Points, found: 3 })
    );
    assert_eq!(
        read_arrays(&torn, &wide),
        Err(ShapeError::PartialRow { array: ArrayName::Points, cells: 1 })
    );
    assert_eq!(
        read_arrays(&good_points, &wide),
        Err(ShapeError::ColumnCount { array: ArrayName::Polygon, found: 3 })
    );
    assert_eq!(
        read_arrays(&good_points, &torn),
        Err(ShapeError::PartialRow { array: ArrayName::Polygon, cells: 1 })
    );
}
