[package]
name = "apyee"
version = "0.1.0"
edition = "2021"
publish = false

[dependencies]
rand = "0.8"
serde_json = "1"
thiserror = "1"
tokio = { version = "1", features = ["io-util", "net", "rt", "sync", "time"] }
