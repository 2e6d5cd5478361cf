[package]
name = "proxy_ssh"
version = "0.1.0"
edition = "2021"
publish = false

[dependencies]
anyhow = "1"
clap = { version = "4", features = ["derive"] }
env_logger = "0.11"
log = "0.4"
socket2 = "0.5"
tokio = { version = "1", features = ["full"] }
