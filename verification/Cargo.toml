[package]
name = "tidy_agent"
version = "0.1.0"
edition = "2021"
publish = false

[dependencies]
axum = "=0.7.9"
config = "=0.14.1"
crossbeam-channel = "=0.5.17"
futures = "=0.3.34"
gethostname = "=0.4.3"
notify = "=6.1.1"
reqwest = { version = "0.12", default-features = false }
serde = { version = "=1.0.229", features = ["derive"] }
serde_json = "=1.0.154"
sysinfo = "=0.30.13"
tokio = { version = "=1.54.1", features = ["full"] }
tower-http = { version = "=0.5.2", features = ["trace"] }
tracing = "=0.1.44"
tracing-subscriber = "=0.3.23"
