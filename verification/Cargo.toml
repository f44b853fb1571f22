[package]
name = "rlib"
version = "0.1.0"
edition = "2021"
publish = false

[dependencies]
mimalloc = "0.1"
serde = { version = "1", features = ["derive"] }
serde_json = "1"
