[package]
name = "water_engine"
version = "0.1.0"
edition = "2021"
publish = false

[dependencies]
gltf = { version = "*", default-features = false, features = ["utils"] }
nalgebra = "*"
rhai = "*"
log = "*"
