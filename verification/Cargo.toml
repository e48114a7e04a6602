[package]
name = "picture_vault"
version = "0.1.0"
edition = "2021"
publish = false

[dependencies]
clap = { version = "=4.6.7", features = ["derive"] }
image = "=0.21.3"
rpassword = "=5.0.1"
serde_json = "=1.0.154"
steganography = "=1.0.2"
