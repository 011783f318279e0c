[package]
name = "rangebar"
version = "0.1.0"
edition = "2021"
publish = false

[dependencies]
serde = { version = "*", features = ["derive"] }
serde_json = "*"
csv = "*"
tokio = { version = "*", features = ["rt", "sync", "time", "macros"] }
