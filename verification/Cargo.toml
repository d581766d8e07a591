[package]
name = "raytracer"
version = "0.1.0"
edition = "2021"
publish = false

[dependencies]
line_drawing = "=1.0.1"
nalgebra = "=0.31.4"
fastrand = "=1.9.0"
crossbeam = "=0.8.5"
tobj = "=3.2.5"
num_cpus = "=1.17.0"
eframe = { version = "=0.23.0", default-features = false, features = ["default_fonts", "glow", "x11"] }
