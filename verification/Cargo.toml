[package]
name = "bitcoin_block_hash"
version = "0.1.0"
edition = "2021"
publish = false

[dependencies]
borsh = { version = "=1.8.1", features = ["derive", "unstable__schema"] }
