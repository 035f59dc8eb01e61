[package]
name = "coinamics_ws"
version = "0.1.0"
edition = "2021"
publish = false

[dependencies]
serde_json = "1"
chrono = "0.4"
ws = { version = "0.9", features = ["ssl"] }
openssl = "0.10"
