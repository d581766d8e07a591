//! Verified core of a small physically based ray tracer: the film that the
//! renderer writes to, the integer logic of line rasterisation and clipping,
//! the validation of user-entered settings, and the decisions that drive the
//! worker threads.

pub mod camera;
pub mod film;
pub mod decimal;
pub mod gui;
pub mod geometry;
pub mod rasterizing;
pub mod threader;
pub mod concurrency;
pub mod image;
pub mod material;
pub mod primitives;
pub mod rasterizer;
pub mod rect;
pub mod sampler;
pub mod settings;
pub mod spectrum;
