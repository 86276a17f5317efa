[package]
name = "vsix_harvester"
version = "0.1.0"
edition = "2021"
publish = false

[dependencies]
clap = { version = "*", features = ["derive", "env"] }
env_logger = "*"
futures = "*"
log = "*"
reqwest = { version = "*", default-features = false, features = ["rustls-tls", "gzip", "json"] }
serde = { version = "*", features = ["derive"] }
serde_json = "*"
thiserror = "*"
tokio = { version = "*", features = ["rt-multi-thread", "macros"] }
