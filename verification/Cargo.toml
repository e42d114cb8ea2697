[package]
name = "veritas"
version = "0.1.0"
edition = "2021"
publish = false

[dependencies]
plonky2 = "=1.1.0"
image = { version = "=0.24.9", default-features = false, features = ["png", "jpeg", "gif", "webp"] }
bincode = "=1.3.3"
sha2 = "=0.10.9"
rand = "=0.8.8"
serde = { version = "=1.0.229", features = ["derive"] }
serde_json = "=1.0.154"
base64 = "=0.22.1"
uuid = { version = "=1.29.0", features = ["v4"] }
chrono = { version = "=0.4.45", features = ["serde"] }
anyhow = "=1.0.104"
actix-web = "=4.18.1"
actix-cors = "=0.7.2"
tokio = { version = "=1.54.1", features = ["rt-multi-thread", "macros", "sync"] }
env_logger = "=0.11.11"
log = "=0.4.35"
sysinfo = "=0.32.1"
