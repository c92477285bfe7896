[package]
name = "tri_klops"
version = "0.1.0"
edition = "2021"
publish = false

[dependencies]
image = "0.25"
imageproc = "0.25"
rand = "0.8"
rayon = "1"
svg = "0.17"
