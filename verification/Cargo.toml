[package]
name = "imgtools"
version = "0.1.0"
edition = "2021"
publish = false

[dependencies]
ab_glyph = "0.2"
clap = { version = "4", features = ["derive"] }
image = "0.25"
imageproc = "0.25"
