[package]
name = "mentisdbd"
version = "0.1.0"
edition = "2021"
publish = false

[dependencies]
env_logger = "0.11"
libc = "0.2"
log = "0.4"
opentelemetry = "0.27"
opentelemetry-appender-tracing = "0.27"
opentelemetry-otlp = { version = "0.27", default-features = false, features = ["http-proto", "reqwest-client", "trace", "metrics", "logs"] }
opentelemetry_sdk = { version = "0.27", features = ["rt-tokio"] }
rustls = { version = "0.23", default-features = false, features = ["ring", "std", "logging", "tls12"] }
serde = { version = "1", features = ["derive"] }
serde_json = "1"
thiserror = "2"
tokio = { version = "1", features = ["full"] }
tracing = "0.1"
tracing-log = "0.2"
tracing-opentelemetry = "0.28"
tracing-subscriber = { version = "0.3", features = ["env-filter", "json"] }
ureq = { version = "2", features = ["json"] }
