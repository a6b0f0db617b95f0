[package]
name = "auto_anime"
version = "0.1.0"
edition = "2021"
publish = false

[dependencies]
anyhow = "*"
chrono = "*"
crossbeam-queue = "*"
futures = "*"
reqwest = "*"
resend-rs = "*"
rss = "*"
serde = { version = "*", features = ["derive"] }
serde_yaml = "*"
sled = "*"
tokio = { version = "*", features = ["macros", "rt-multi-thread", "time", "sync"] }
tracing = "*"
tracing-subscriber = "*"
