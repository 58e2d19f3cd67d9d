[package]
name = "webhook_capture"
version = "0.1.0"
edition = "2021"
publish = false

[dependencies]
serde_json = "=1.0.151"
tokio = { version = "=1.53.2", features = ["sync", "rt-multi-thread", "macros", "net", "signal"] }
chrono = "=0.4.45"
rand = "=0.8.8"
axum = { version = "=0.6.20", features = ["ws"] }
tower-http = { version = "=0.4.4", features = ["cors", "fs", "trace"] }
anyhow = "=1.0.104"
tracing = "=0.1.44"
tracing-subscriber = "=0.3.23"
futures = "=0.3.34"
libc = "=0.2.190"
socket2 = "=0.5.10"
