[package]
name = "forward_auth"
version = "0.1.0"
edition = "2021"
publish = false

[dependencies]
alcoholic_jwt = "*"
anyhow = "1"
chrono = "0.4"
env_logger = "*"
hyper = { version = "0.14", features = ["server", "client", "http1", "tcp"] }
hyper-tls = "0.5"
log = "0.4"
serde = { version = "1", features = ["derive"] }
serde_json = "1"
tokio = { version = "1", features = ["sync", "time", "macros", "rt-multi-thread"] }
