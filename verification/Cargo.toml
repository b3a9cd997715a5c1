[package]
name = "prfc1_token"
version = "0.1.0"
edition = "2021"
publish = false

[dependencies]
borsh = { version = "=1.8.1", features = ["derive"] }
pchain-sdk = "=0.4.2"
pchain-types = "=0.4.3"
