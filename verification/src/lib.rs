//! Integer-only rasterization of ellipses and polylines.
//!
//! A shape paired with a style yields a finite stream of coloured pixels. Every
//! stream is described by a mathematical sequence (`remaining`) and each `next`
//! is proved to hand out exactly the head of that sequence.

pub mod geometry;
pub mod rectangle;
pub mod style;
pub mod ellipse;
pub mod line;
pub mod thick_line;
pub mod polyline;
