[package]
name = "imagent"
version = "0.1.0"
edition = "2021"
publish = false

[dependencies]
serde_json = "=1.0.154"
regex = "=1.13.1"
base64 = "=0.22.1"
rand = "=0.8.8"
chrono = "=0.4.45"
tokio = { version = "=1.54.1", features = ["full"] }
reqwest = { version = "=0.12.28", default-features = false, features = ["json", "multipart"] }
tracing = "=0.1.44"
uuid = { version = "=1.29.0", features = ["v4"] }
prometheus = { version = "=0.13.4", default-features = false }
open-lark = { version = "=0.14.0", features = ["websocket"] }
