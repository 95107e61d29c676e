[package]
name = "metadeps"
version = "1.0.0"
edition = "2021"
publish = false

[dependencies]
toml = "0.8"
pkg-config = "0.3"
