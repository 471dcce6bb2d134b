[package]
name = "nft_market"
version = "0.1.0"
edition = "2021"
publish = false

[dependencies]
near-sdk = "3.1.0"
borsh = "0.8"
serde = { version = "1", features = ["derive"] }
wee_alloc = "0.4.5"
