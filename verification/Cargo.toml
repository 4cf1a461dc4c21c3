[package]
name = "hollywood"
version = "0.1.0"
edition = "2021"
publish = false

[dependencies]
anyhow = "1"
async-channel = "1"
async-trait = "0.1"
clap = { version = "3", features = ["derive"] }
log = "0.4"
nats = "=0.26.0"
pretty_env_logger = "0.4"
serde = { version = "1", features = ["derive"] }
serde_json = "1"
tokio = { version = "1", features = ["rt-multi-thread", "macros", "time"] }
toml = "0.5"
uuid = { version = "=1.27.0", features = ["v4"] }
