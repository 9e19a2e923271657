//! Point-in-polygon classification for a single closed ring, by ray
//! casting, with the boundary counted in or out as the caller asks.
//!
//! Floating-point arithmetic is outside what is proved here, so the library
//! never computes with a coordinate. It holds each coordinate as a rank, an
//! integer that orders as the number does, and it takes the two findings
//! that need arithmetic on the numbers themselves (is the cross product
//! zero, does the edge meet the ray to the right of the point) as an
//! [`EdgeProbe`] for every pair of a query point and an edge. Everything
//! else is decided and proved here: the bounding box, which edges straddle
//! the ray, parity, the boundary policy, degenerate rings, the shape of the
//! arrays, the order of the answers and the split of a batch into the
//! chunks of a worker pool.

pub mod batch;
pub mod chunks;
pub mod edge;
pub mod laws;
pub mod point;
pub mod polygon;
pub mod table;
pub mod verdict;

pub use batch::{classify, POOL_SIZE};
pub use chunks::{chunk_bounds, Chunk};
pub use edge::{edge_membership, ray_crossing, EdgeProbe};
pub use point::{rank_from_bits, Point};
pub use polygon::Polygon;
pub use table::{read_arrays, ArrayName, ShapeError, Table};
pub use verdict::classify_point;
