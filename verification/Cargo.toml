[package]
name = "cgq"
version = "0.1.0"
edition = "2021"
publish = false

[dependencies]
rand = "=0.8.8"
serde = { version = "=1.0.229", features = ["derive"] }
serde_json = "=1.0.154"
serde_yaml = "=0.9.34"
anyhow = "=1.0.104"
async-trait = "=0.1.92"
tokio = { version = "=1.54.1", features = ["fs", "net", "io-util", "rt-multi-thread", "sync"] }
clap = { version = "=4.6.7", features = ["derive"] }
toml = "=0.8.23"
bevy = { version = "=0.14.2", default-features = false }
