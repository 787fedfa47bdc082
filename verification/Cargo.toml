[package]
name = "sprint_metrics"
version = "0.1.0"
edition = "2021"
publish = false

[dependencies]
chrono = "*"
clap = { version = "*", features = ["derive"] }
futures = "*"
git2 = "*"
git2_credentials = "*"
gitea-sdk = "*"
indexmap = { version = "*", features = ["serde"] }
indicatif = "*"
markdown-builder = "*"
markdown-table = "*"
serde_json = "*"
tokio = { version = "*", features = ["full"] }
