[package]
name = "newton_fractal"
version = "0.1.0"
edition = "2021"
publish = false

[dependencies]
num = "0.4"
ndarray = "0.15"
image = { version = "0.24", default-features = false, features = ["png"] }
