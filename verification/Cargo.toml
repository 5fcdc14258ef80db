[package]
name = "shop"
version = "0.1.0"
edition = "2021"
publish = false

[dependencies]
actix = "0.13"
async-std = "1"
colored = "2"
rand = "0.8"
serde = { version = "1", features = ["derive"] }
serde_json = "1"
tokio = { version = "1", features = ["full"] }
