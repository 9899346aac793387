[package]
name = "routing_core"
version = "0.1.0"
edition = "2021"
publish = false

[dependencies]
hex = "0.4"
futures-channel = "0.3"
tokio-tungstenite = { version = "0.20", default-features = false }
serde = { version = "1", features = ["derive"] }
serde_json = "1"
minicbor = { version = "0.20", features = ["derive", "alloc"] }
clap = { version = "4", features = ["derive"] }
