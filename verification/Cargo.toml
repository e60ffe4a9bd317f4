[package]
name = "vnt_api"
version = "0.1.0"
edition = "2021"

[dependencies]
anyhow = "1"
flutter_rust_bridge = "2"
ipnet = "2"
log = "0.4"
log4rs = "1"
rust-p2p-core = "*"
tokio = { version = "1", features = ["rt-multi-thread"] }
