[package]
name = "nft_sale"
version = "0.1.0"
edition = "2021"
publish = false

[dependencies]
rand = "=0.8.8"
near-sdk = { version = "=5.29.1", features = ["non-contract-usage"] }
serde = { version = "=1.0.229", features = ["derive"] }
serde_json = "=1.0.151"
