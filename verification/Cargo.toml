[package]
name = "relayer_proxy"
version = "0.1.0"
edition = "2021"
publish = false

[dependencies]
solana-sdk = "*"
crossbeam-channel = "*"
serde = { version = "*", features = ["derive"] }
serde_json = "*"
