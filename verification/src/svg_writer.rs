//! The primitives the layout engine draws with: line segments and filled
//! circles, each with a builder.

pub mod circle;
pub mod line;
