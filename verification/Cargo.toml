[package]
name = "steamtools"
version = "0.1.0"
edition = "2021"
publish = false

[dependencies]
zip = "*"
serde = { version = "1", features = ["derive"] }
serde_json = "1"
reqwest = { version = "*", default-features = false, features = ["blocking", "json", "rustls-tls"] }
log = "0.4"
env_logger = "*"
rfd = "*"
