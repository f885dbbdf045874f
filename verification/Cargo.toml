[package]
name = "teatree"
version = "0.1.0"
edition = "2021"
publish = false

[dependencies]
bincode = "1"
byteorder = "1"
bytes = "0.4"
futures = "0.1"
jsonrpc-parse = "*"
serde = { version = "1", features = ["derive"] }
tokio = "0.1"
