[package]
name = "mustermann"
version = "0.1.0"
edition = "2021"
publish = false

[dependencies]
anyhow = "1"
clap = { version = "4", features = ["derive"] }
futures = "0.3"
opentelemetry = "*"
opentelemetry_sdk = { version = "*", features = ["rt-tokio"] }
opentelemetry-otlp = { version = "*", default-features = false, features = ["grpc-tonic", "trace", "metrics", "logs"] }
opentelemetry-semantic-conventions = "*"
opentelemetry-stdout = "*"
opentelemetry-appender-tracing = "*"
serde = { version = "1", features = ["derive"] }
serde_yaml = "0.9"
tabled = "*"
tokio = { version = "1", features = ["full"] }
tonic = "*"
tracing = "0.1"
tracing-subscriber = { version = "0.3", features = ["env-filter", "json"] }
