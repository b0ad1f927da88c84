[package]
name = "tile_raster"
version = "0.1.0"
edition = "2021"
publish = false

[dependencies]
cgmath = "*"
genmesh = "*"
image = { version = "*", default-features = false, features = ["png"] }
