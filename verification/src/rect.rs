//! Axis-aligned rectangles.

pub use crate::primitives::rect::RectAxes;
