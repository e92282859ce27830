[package]
name = "recuvora"
version = "0.1.0"
edition = "2021"
publish = false

[dependencies]
serde_json = "1"
serde = { version = "1", features = ["derive"] }
thiserror = "2"
tokio = { version = "1", features = ["rt-multi-thread", "macros", "sync", "time", "process", "io-util", "signal", "net"] }
axum = "0.8"
fs2 = "0.4"
filepath = "0.2"
winapi-util = "0.1"
