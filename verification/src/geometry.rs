//! Lines, the regions of the plane they are clipped against, and the pixels
//! they cover.

pub mod lines;
pub mod points;
