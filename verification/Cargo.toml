[package]
name = "redisdesk"
version = "0.1.0"
edition = "2021"
publish = false

[dependencies]
chrono = "*"
redis = "*"
serde = { version = "*", features = ["derive"] }
serde_json = "*"
