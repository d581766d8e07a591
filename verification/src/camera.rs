//! Camera-side data structures.

pub mod film;
