[package]
name = "cloud_stt"
version = "0.1.0"
edition = "2021"
publish = false

[dependencies]
base64 = "=0.22.1"
futures-util = "=0.3.34"
getrandom = "=0.4.3"
hound = "=3.5.1"
log = "=0.4.35"
reqwest = { version = "=0.12.28", default-features = false, features = ["json"] }
serde = { version = "=1.0.229", features = ["derive"] }
serde_json = "=1.0.154"
tokio = { version = "=1.54.1", features = ["sync", "time", "rt", "macros", "net"] }
tokio-tungstenite = "=0.24.0"
uuid = { version = "=1.29.0", features = ["v4"] }
