//! Running an integrator on several threads.

pub mod run_concurrently;
