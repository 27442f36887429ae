[package]
name = "investment_vault"
version = "0.1.0"
edition = "2021"
publish = false

[dependencies]
soroban-sdk = { version = "=28.0.0", features = ["testutils"] }

[dev-dependencies]
proptest = "=1.12.0"
