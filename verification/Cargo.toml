[package]
name = "stream_stats"
version = "0.1.0"
edition = "2021"
publish = false

[dependencies]
prometheus = "=0.14.0"
serde = { version = "=1.0.229", features = ["derive"] }
serde_json = "*"
