[package]
name = "glwe_tensor"
version = "0.1.0"
edition = "2021"
publish = false

[dependencies]
aligned-vec = "*"
rayon = "*"
serde = { version = "*", features = ["derive"] }
