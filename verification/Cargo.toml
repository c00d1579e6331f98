[package]
name = "bot_trap"
version = "0.1.0"
edition = "2021"
publish = false

[dependencies]
base64 = "0.22"
hmac = "0.12"
sha2 = "0.10"
ipnet = "2"
serde = { version = "1", features = ["derive"] }
serde_json = "1"
spin-sdk = "3"
