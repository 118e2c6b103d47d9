[package]
name = "rote"
version = "0.1.0"
edition = "2021"
publish = false

[dependencies]
epub-builder = "*"
serde = { version = "*", features = ["derive"] }
toml = "*"
clap = { version = "*", features = ["derive"] }
