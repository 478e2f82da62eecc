[package]
name = "libtardis"
version = "0.1.0"
edition = "2021"
publish = false

[dependencies]
clap = { version = "4", features = ["derive"] }
lz4_flex = "0.11"
nix = { version = "*", features = ["fs", "process"] }
ring = "0.17"
