[package]
name = "pixel_codec"
version = "0.1.0"
edition = "2021"
publish = false

[dependencies]
weezl = "0.1"
image = { version = "0.24", default-features = false, features = ["bmp", "jpeg", "tiff"] }
