//! Coordinates as ranks, and points.

use vstd::prelude::*;

verus! {

/// The sign bit of an IEEE 754 binary64 pattern.
pub const SIGN_BIT: u64 = 0x8000_0000_0000_0000;

/// The rank of the binary64 number whose bit pattern is `bits`: its
/// magnitude bits read as an integer, negated where the sign bit is set.
///
/// IEEE 754 lays the patterns out so that, among the numbers that are not
/// NaN, ranks compare as the numbers do, and the two zeros share rank 0.
/// That is a fact about the format; it is not proved here, where a
/// coordinate is its rank and nothing else.
pub open spec fn rank_of_bits(bits: u64) -> int {
    if bits >= SIGN_BIT {
        -(bits - SIGN_BIT)
    } else {
        bits as int
    }
}

/// Computes the rank of a binary64 bit pattern.
pub fn rank_from_bits(bits: u64) -> (rank: i64)
    ensures
        rank == rank_of_bits(bits),
{
    if bits >= SIGN_BIT {
        let magnitude: u64 = bits - SIGN_BIT;
        0 - (magnitude as i64)
    } else {
        bits as i64
    }
}

/// A point of the plane, each coordinate held as a rank.
#[derive(Clone, Copy, Debug, PartialEq, Eq)]
pub struct Point {
    pub x: i64,
    pub y: i64,
}

impl Point {
    /// The point whose coordinates have the bit patterns `x_bits` and `y_bits`.
    pub fn from_bits(x_bits: u64, y_bits: u64) -> (p: Point)
        ensures
            p.x == rank_of_bits(x_bits),
            p.y == rank_of_bits(y_bits),
    {
        Point { x: rank_from_bits(x_bits), y: rank_from_bits(y_bits) }
    }
}

} // verus!
