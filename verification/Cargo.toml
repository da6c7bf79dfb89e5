[package]
name = "satori"
version = "0.1.0"
edition = "2021"
publish = false

[dependencies]
serde = { version = "1", features = ["derive"] }
serde_json = "1"
serde_repr = "0.1"
tokio = { version = "1", features = ["rt", "rt-multi-thread", "sync", "net", "time", "macros"] }
async-trait = "0.1"
futures-util = "0.3"
axum = { version = "0.6", features = ["ws"] }
hyper = { version = "0.14", features = ["client", "http1", "tcp", "server"] }
tokio-tungstenite = "0.20"
