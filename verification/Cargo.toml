[package]
name = "ascii_spin"
version = "0.1.0"
edition = "2021"
publish = false

[dependencies]
image = "0.25"
