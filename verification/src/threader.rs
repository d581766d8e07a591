//! Coordination of the worker threads that render the film tile by tile.

pub mod multithreader;
