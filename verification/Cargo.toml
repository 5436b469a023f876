[package]
name = "graphflow"
version = "0.1.0"
edition = "2021"
publish = false

[dependencies]
serde_json = "=1.0.151"
base64 = "=0.22.1"
serde = { version = "1", features = ["derive"] }
tokio = { version = "1", features = ["full"] }
tokio-tungstenite = "*"
tungstenite = "*"
url = "2"
rand = "0.8"
chrono = "0.4"
cudarc = { version = "=0.11.9", features = ["cuda-12050"] }
futures = "0.3"
log = "0.4"
