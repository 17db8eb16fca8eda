[package]
name = "socks_router"
version = "0.1.0"
edition = "2021"
publish = false

[dependencies]
regex = "1"
ipnetwork = "*"
url = "2"
serde = { version = "1", features = ["derive"] }
serde_yaml = "0.9"
tokio = { version = "1", features = ["full"] }
fast-socks5 = "*"
anyhow = "1"
clap = { version = "4", features = ["derive"] }
daemonize = "*"
env_logger = "*"
log = "0.4"
notify = "*"
