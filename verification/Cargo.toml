[package]
name = "nomic"
version = "0.1.0"
edition = "2021"
publish = false

[dependencies]
bitcoin = { version = "=0.28.2", features = ["use-serde"] }
bitcoincore-rpc = "=0.15.0"
rand = "0.8"
serde = { version = "1", features = ["derive"] }
serde_json = "1"
sha2 = "=0.8.2"
tokio = { version = "1", features = ["time"] }
