[package]
name = "oracle"
version = "0.1.0"
edition = "2021"
publish = false

[dependencies]
base64 = "0.13"
borsh = "*"
near-sdk = "2.0"
serde = { version = "1", features = ["derive"] }
serde_json = "1"
