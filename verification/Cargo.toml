[package]
name = "lobby_is_up"
version = "0.1.0"
edition = "2021"
publish = false

[dependencies]
dashmap = "*"
tokio = { version = "*", features = ["sync", "rt-multi-thread", "macros", "time", "signal", "net"] }
tokio-tungstenite = "*"
futures = "*"

[dev-dependencies]
serde_json = "*"
