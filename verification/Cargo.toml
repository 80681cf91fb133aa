[package]
name = "dravr_tronc"
version = "1.0.0"
edition = "2021"
publish = false

[dependencies]
async-trait = "=0.1.92"
axum = "=0.8.9"
chrono = "=0.4.45"
clap = { version = "=4.6.7", features = ["derive", "string"] }
futures = "=0.3.34"
hex = "=0.4.3"
jsonwebtoken = "=9.3.1"
opentelemetry = "=0.30.0"
opentelemetry-otlp = { version = "=0.30.0", features = ["grpc-tonic"] }
opentelemetry_sdk = { version = "=0.30.0", features = ["rt-tokio"] }
reqwest = { version = "=0.12.28", default-features = false, features = ["json", "rustls-tls"] }
ring = "=0.17.14"
schemars = "1"
serde = { version = "=1.0.229", features = ["derive"] }
serde_json = { version = "=1.0.154", features = ["raw_value"] }
subtle = "=2.6.1"
tokio = { version = "=1.54.1", features = ["full"] }
tracing = "=0.1.44"
tracing-opentelemetry = "=0.31.0"
tracing-subscriber = { version = "=0.3.23", features = ["env-filter", "json"] }
