# raytracer

A small progressive ray tracer with a window around it. Its whole-number and
structural logic is a library verified with Verus; the floating-point
rendering, the window and the threads are ordinary Rust around it.

## Layout

- `src/` is the verified library.
  - `camera/film.rs` and `film.rs`: the film as a row-by-row pixel grid, how
    it is split into tiles, how a rendered tile is merged back (only when it
    is newer than what the film holds), RGBA output and the plain PPM text.
  - `decimal.rs`: parsing and printing of `usize` and `i32`, exactly as the
    standard library does it, with round-trip lemmas.
  - `gui/`: checking what the user types into a settings field.
  - `geometry/`: Cohen–Sutherland outcodes and clipping decisions, and
    Bresenham line walking through the `line_drawing` crate.
  - `rasterizing.rs`: joining shape outlines and marking their pixels.
  - `threader/`: what a worker does after each tile, settings updates and
    progress.
  - `settings/`: the user's settings and the record of their changes.
  - `image.rs`, `primitives.rs`, `material.rs`: which image layer is shown,
    the scene's list of shapes, and diffuse lights.
- `tests/` runs the library on concrete values.
- `app/` holds `main`, the window (eframe), the worker threads, the camera
  and the floating-point shading, intersection and projection code.
