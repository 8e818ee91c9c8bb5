[package]
name = "dnslr"
version = "0.1.0"
edition = "2021"
publish = false

[dependencies]
arc-swap = "*"
futures-util = "*"
lazy_static = "*"
redis = { version = "*", features = ["tokio-comp", "connection-manager"] }
serde = { version = "*", features = ["derive"] }
serde_json = "*"
signal-hook = "*"
signal-hook-tokio = { version = "*", features = ["futures-v0_3"] }
tokio = { version = "*", features = ["full"] }
tracing = "*"
tracing-subscriber = "*"
trust-dns-client = "*"
trust-dns-server = "*"
