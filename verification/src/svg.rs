//! Geometric output: documents of typed primitives, and a stroked circle.
//!
//! The renderer outside this library maps each primitive one to one onto
//! markup; here only the geometry is computed and specified.

pub mod circle;
pub mod document;
