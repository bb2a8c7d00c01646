//! Exact rational arithmetic over 32-bit integers, built on the Euclidean
//! algorithm, together with a small two-dimensional point type.

pub mod geometry;
pub mod math;
