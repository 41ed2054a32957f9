[package]
name = "multi-effect"
version = "0.1.0"
edition = "2021"
publish = false

[dependencies]
anyhow = "=1.0.104"
serde = { version = "=1.0.229", features = ["derive"] }
serde_json = "=1.0.154"
tokio = { version = "=1.54.1", features = ["full"] }
tracing = "=0.1.44"
tracing-subscriber = { version = "=0.3.23", features = ["env-filter"] }
rtrb = "=0.4.1"
axum = { version = "=0.8.9", features = ["ws"] }
tower-http = { version = "=0.7.1", features = ["fs", "cors"] }
futures-util = "=0.3.34"
syslog = "=7.0.0"
tokio-serial = "=5.5.0"
