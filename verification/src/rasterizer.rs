//! Lines as the wireframe rasteriser draws them.

pub use crate::geometry::lines::{Line2, Line3, OutCode};
