//! Exact ray casting against geometric primitives.
//!
//! Shapes and rays live on an integer lattice. A cast reports the closest
//! crossing of the ray with the shape's boundary as an exact fraction of the
//! ray's direction vector, so every comparison, tie-break and truncation is
//! decided without rounding.

pub mod error;
pub mod raycast2d;
pub mod raycast3d;
pub mod scalar;
