[package]
name = "orbit_sync"
version = "0.1.0"
edition = "2021"
publish = false

[dependencies]
rand = "=0.10.3"
sha2 = "=0.11.0"
uuid = { version = "=1.27.0", features = ["v4"] }
chrono = "=0.4.45"
tempfile = "=3.27.0"
serde = { version = "=1.0.229", features = ["derive"] }
serde_json = "=1.0.151"
axum = "=0.8.9"
tokio = { version = "=1.53.2", features = ["rt-multi-thread", "macros", "net", "time", "sync", "fs"] }
tower-http = { version = "=0.7.1", features = ["cors"] }
