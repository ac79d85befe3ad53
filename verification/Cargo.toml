[package]
name = "rpc_tester"
version = "0.1.0"
edition = "2021"
publish = false

[dependencies]
similar = "2"
jsonrpsee = { version = "*", features = ["http-client"] }
tokio = { version = "1", features = ["rt-multi-thread", "macros"] }
clap = { version = "4", features = ["derive"] }
serde = { version = "1", features = ["derive"] }
serde_json = "1"
eyre = "0.6"
futures = "0.3"
parking_lot = "0.12"
