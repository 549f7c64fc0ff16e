[package]
name = "walle_core"
version = "0.1.0"
edition = "2021"
publish = false

[dependencies]
base64 = "0.21"
uuid = "1"
serde = { version = "1", features = ["derive"] }
serde_json = "1"
rmp-serde = "1"
tokio = { version = "1", features = ["sync"] }
