[package]
name = "synthpass"
version = "0.1.0"
edition = "2021"
publish = false

[dependencies]
mrz = "*"
serde = { version = "1", features = ["derive"] }
serde_json = "1"
zeroize = { version = "1", features = ["derive"] }
