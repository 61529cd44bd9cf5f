[package]
name = "rust_snake"
version = "0.1.0"
edition = "2021"
publish = false

[dependencies]
anyhow = "1"
crossterm = "*"
rand = "*"
rodio = "*"
uuid = { version = "1", features = ["v4"] }
