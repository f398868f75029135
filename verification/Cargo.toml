[package]
name = "tif2dds"
version = "0.1.0"
edition = "2021"
publish = false

[dependencies]
rust-ini = "*"
clap = { version = "*", features = ["cargo"] }
dialoguer = "*"
image = { version = "*", default-features = false, features = ["png", "tiff"] }
