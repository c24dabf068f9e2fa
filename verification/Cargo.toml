[package]
name = "visible_raytrace"
version = "0.1.0"
edition = "2021"
publish = false

[dependencies]
kiss3d = "0.35"
nalgebra = "0.30"
