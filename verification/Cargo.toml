[package]
name = "slice_and_dice"
version = "0.1.0"
edition = "2021"
publish = false

[dependencies]
sorted-vec = "*"
rand = "0.8"
rayon = "*"
