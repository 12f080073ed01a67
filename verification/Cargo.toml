[package]
name = "nfc_nft"
version = "0.1.0"
edition = "2021"
publish = false

[dependencies]
sha2 = "=0.10.9"
k256 = "=0.13.4"
soroban-sdk = { version = "=28.0.0", features = ["testutils"] }
