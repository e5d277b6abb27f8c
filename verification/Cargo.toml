[package]
name = "sprity_aseprite"
version = "0.1.0"
edition = "2021"
publish = false

[dependencies]
ahash = "*"
anyhow = "*"
bimap = "*"
flate2 = "*"
image = { version = "*", default-features = false, features = ["png"] }
texture_packer = "*"
thiserror = "*"
