[package]
name = "tictactoe_sync"
version = "0.1.0"
edition = "2021"
publish = false

[dependencies]
tokio = { version = "*", features = ["sync", "rt", "rt-multi-thread", "macros"] }
tokio-tungstenite = "*"
uuid = { version = "*", features = ["v4"] }
serde_json = "*"
