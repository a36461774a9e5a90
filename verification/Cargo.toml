[package]
name = "cursor_server"
version = "0.1.0"
edition = "2021"
publish = false

[dependencies]
url = "2"
serde = { version = "1", features = ["derive"] }
serde_json = "1"
tokio = { version = "1", features = ["sync", "rt", "fs", "macros", "time", "net"] }
tokio-util = "0.7"
axum = "0.8"
bytes = "1"
prost = "0.13"
reqwest = { version = "0.12", features = ["blocking", "native-tls"] }
futures-util = "0.3"
async-stream = "0.3"
parking_lot = "0.12"
tracing = "0.1"
uuid = { version = "1", features = ["v4"] }
regex = "1"
