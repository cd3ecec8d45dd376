[package]
name = "drawing_engine"
version = "0.1.0"
edition = "2021"
publish = false

[dependencies]
image = { version = "0.25.10", default-features = false, features = ["png", "jpeg", "bmp", "gif"] }
imageproc = { version = "0.27.0", default-features = false }
enigo = "0.6.1"
