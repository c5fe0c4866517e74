[package]
name = "yt_dlp_server"
version = "0.1.1"
edition = "2021"
publish = false

[dependencies]
regex = "1"
chrono = "0.4"
serde = { version = "1", features = ["derive"] }
serde_json = "1"
serde_yaml = "0.9"
serde_urlencoded = "0.7"
axum = "0.8"
tokio = { version = "1", features = ["full"] }
tower-http = { version = "0.6", features = ["cors", "trace", "fs"] }
tracing = "0.1"
tracing-subscriber = { version = "0.3", features = ["env-filter"] }
rusqlite = { version = "0.32", features = ["bundled"] }
async-stream = "0.3"
mime_guess = "2"
thiserror = "2"
