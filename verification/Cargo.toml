[package]
name = "pullix"
version = "0.1.0"
edition = "2021"
publish = false

[dependencies]
anyhow = "1"
derive_more = { version = "2", default-features = false, features = ["display"] }
gethostname = "1"
git2 = "0.20"
opentelemetry = "0.31"
opentelemetry-otlp = { version = "0.31", default-features = false, features = ["http-proto", "metrics", "reqwest-blocking-client", "trace"] }
opentelemetry_sdk = { version = "0.31", default-features = false, features = ["metrics", "trace"] }
reqwest = "0.12"
serde = { version = "1", features = ["derive"] }
serde_json = "1"
tempfile = "3"
thiserror = "2"
tokio = { version = "1", features = ["fs", "macros", "process", "rt-multi-thread", "time"] }
toml = "0.9"
tracing = "0.1"
tracing-opentelemetry = "0.32"
tracing-subscriber = { version = "0.3", features = ["env-filter"] }
