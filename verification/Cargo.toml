[package]
name = "vdl"
version = "0.1.0"
edition = "2021"
publish = false

[dependencies]
anyhow = "1"
axum = { version = "0.8", features = ["ws"] }
clap = { version = "4", features = ["derive"] }
colored = "*"
dashmap = "6"
dirs = "*"
indicatif = "*"
serde = { version = "1", features = ["derive"] }
serde_json = "1"
serde_yaml = "0.9"
tokio = { version = "1", features = ["full"] }
tokio-util = "0.7"
tower-http = { version = "*", features = ["cors"] }
uuid = { version = "1", features = ["v4", "serde"] }
yt-dlp = "2"
