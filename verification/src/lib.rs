//! Fixed-dimension numeric coordinates: a capability contract built on three
//! primitives (generate by index, read by index, write by index), with
//! component-wise arithmetic, bounding-box extrema and squared distances
//! derived once for every conforming type, and the algebraic laws of those
//! operations stated and proved alongside them.

pub mod coordinate;
pub mod laws;
pub mod point;
pub mod scalar;
