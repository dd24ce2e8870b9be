[package]
name = "all_is_cubes"
version = "0.1.0"
edition = "2021"
publish = false

[dependencies]
cgmath = "0.18"
ordered-float = "2"
