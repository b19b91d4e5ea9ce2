[package]
name = "matrix_rs"
version = "0.1.0"
edition = "2021"
publish = false

[dependencies]

[dev-dependencies]
nalgebra = "*"
rand = "*"
