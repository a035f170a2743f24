[package]
name = "aeon-engine"
version = "0.1.0"
edition = "2021"
publish = false

[dependencies]
axum = { version = "=0.8.9", features = ["ws"] }
base64 = "=0.22.1"
dashmap = "=6.2.1"
hex = "=0.4.3"
libloading = "=0.8.9"
rand = "=0.8.8"
rtrb = "=0.3.6"
serde = { version = "=1.0.229", features = ["derive"] }
serde_json = "=1.0.154"
sha2 = "=0.10.9"
tokio = { version = "=1.54.1", features = ["full"] }
tower-http = { version = "=0.6.11", features = ["limit", "set-header", "trace"] }
tracing = "=0.1.44"
uuid = { version = "=1.29.0", features = ["v7"] }
