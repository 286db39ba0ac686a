[package]
name = "lobby"
version = "0.1.0"
edition = "2021"
publish = false

[dependencies]
async-std = { version = "1", features = ["attributes"] }
async-tungstenite = { version = "0.5" }
corepack = "0.4"
futures = "0.3"
parking_lot = "0.12"
serde = { version = "1", features = ["derive"] }
