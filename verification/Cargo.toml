[package]
name = "lsm"
version = "0.1.0"
edition = "2021"
publish = false

[dependencies]
anyhow = "1"
clap = { version = "4", features = ["derive"] }
git2 = "*"
os_info = "3"
quale = "1"
serde = { version = "1", features = ["derive"] }
serde_derive = "1"
serde_yaml = "0.9"
tracing = "0.1"
tracing-subscriber = "0.3"
