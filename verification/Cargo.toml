[package]
name = "rust_3d_rendering"
version = "0.1.0"
edition = "2021"
publish = false

[dependencies]
sdl2 = "*"
image = { version = "*", default-features = false, features = ["png"] }
