[package]
name = "commnode"
version = "0.1.0"
edition = "2021"
publish = false

[dependencies]
regex = "*"
tokio = { version = "*", features = ["full"] }
chrono = "*"
bytes = "*"
tokio-util = { version = "*", features = ["codec"] }
toml = "*"
serde = { version = "*", features = ["derive"] }
futures = "*"
udp-stream = "*"
