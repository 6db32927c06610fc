[package]
name = "lobby"
version = "0.1.0"
edition = "2021"
publish = false

[dependencies]
uuid = { version = "=1.27.0", features = ["v4", "serde"] }
ciborium = "=0.2.2"
serde = { version = "=1.0.229", features = ["derive"] }
tracing-mutex = "=0.3.3"
tungstenite = "=0.30.0"
