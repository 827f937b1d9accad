[package]
name = "store_create"
version = "0.1.0"
edition = "2021"
publish = false

[dependencies]
chrono = "0.4"
scopeguard = "1"
serde = { version = "1", features = ["derive"] }
serde_json = "1"
slint = { version = "1", default-features = false, features = ["compat-1-2", "std"] }
tokio = { version = "1", features = ["rt", "rt-multi-thread", "sync", "time", "macros"] }
tracing = "0.1"
uuid = { version = "1", features = ["v4"] }
