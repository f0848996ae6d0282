[package]
name = "rust_edr"
version = "0.1.0"
edition = "2021"
publish = false

[dependencies]
uuid = { version = "1", features = ["v4"] }
sled = "0.34"
serde = { version = "1", features = ["derive"] }
serde_json = "1"
tokio = { version = "1", features = ["rt-multi-thread", "sync", "time", "macros", "process", "signal"] }
clap = { version = "4", features = ["derive"] }
chrono = "0.4"
procfs = "*"
users = "*"
