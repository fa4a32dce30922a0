[package]
name = "caption"
version = "0.1.0"
edition = "2021"
publish = false

[dependencies]
axum = "=0.8.9"
dotenvy = "=0.15.7"
serde = { version = "=1.0.229", features = ["derive"] }
serde_json = "=1.0.154"
tokio = { version = "=1.54.1", features = ["fs", "macros", "rt-multi-thread"] }
tower = "=0.5.3"
vercel_runtime = { version = "=2.4.1", features = ["axum"] }
yt-transcript-rs = "=0.1.8"
