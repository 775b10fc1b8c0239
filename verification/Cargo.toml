[package]
name = "dither_lib"
version = "0.1.0"
edition = "2021"
publish = false

[dependencies]
ndarray = "0.16"
image = { version = "0.25", default-features = false, features = ["jpeg", "png"] }
rayon = "1"
