[package]
name = "musubu"
version = "0.1.0"
edition = "2021"
publish = false

[dependencies]
indexmap = "2"
twox-hash = "2"
nalgebra = "0.33"
