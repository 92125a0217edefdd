[package]
name = "node_kernel"
version = "0.1.0"
edition = "2021"
publish = false

[dependencies]
ring = "=0.17.14"
hex = "=0.4.3"
rand = "=0.8.8"
k256 = { version = "=0.13.4", features = ["ecdh"] }
tokio = { version = "=1.54.1", features = ["full"] }
serde = { version = "=1.0.229", features = ["derive"] }
serde_json = "=1.0.154"
rmp-serde = "=1.3.1"
anyhow = "=1.0.104"
url = "=2.5.8"
tokio-tungstenite = "0.21"
futures-util = "0.3"
aes-gcm-siv = "0.11"
