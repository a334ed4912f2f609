[package]
name = "alnp"
version = "0.1.0"
edition = "2021"
publish = false

[dependencies]
serde_json = "1"
tokio = { version = "1", features = ["rt", "net", "sync", "time", "macros"] }
uuid = { version = "1", features = ["v4"] }
