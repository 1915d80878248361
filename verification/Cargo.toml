[package]
name = "auction_registry"
version = "0.1.0"
edition = "2021"
publish = false

[dependencies]
cosmwasm-std = "=3.0.10"
schemars = "0.8"
serde = { version = "*", features = ["derive"] }
