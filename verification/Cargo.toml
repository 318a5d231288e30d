[package]
name = "mnemo"
version = "0.1.0"
edition = "2021"
publish = false

[dependencies]
serde = { version = "1", features = ["derive"] }
serde_json = "1"
blake3 = "1"
regex = "1"
rusqlite = { version = "0.32", features = ["bundled"] }
sqlite-vec = "0.1"
ureq = { version = "2", features = ["json"] }
chrono = "0.4"
uuid = { version = "1", features = ["v4"] }
anyhow = "1"
thiserror = "1"
log = "0.4"
env_logger = "0.11"
arboard = "3"
axum = "0.7"
tokio = { version = "1", features = ["rt-multi-thread", "net"] }
