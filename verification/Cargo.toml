[package]
name = "siem_rust_core"
version = "0.1.0"
edition = "2021"
publish = false

[dependencies]
regex = "1"
memchr = "2"
uuid = { version = "1", features = ["v4"] }
dashmap = "6"
chrono = "0.4"
serde = { version = "1", features = ["derive"] }
serde_json = "1"
tokio = { version = "1", features = ["rt-multi-thread", "macros", "time", "sync", "process"] }
async-nats = "*"
reqwest = { version = "0.12", default-features = false, features = ["json"] }
futures-util = "0.3"
log = "0.4"
env_logger = "0.11"
thiserror = "1"
rayon = "1"
