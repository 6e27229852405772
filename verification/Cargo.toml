[package]
name = "image_rs"
version = "0.1.0"
edition = "2021"
publish = false

[dependencies]
sha2 = "0.10"
kamadak-exif = "0.5"
imagesize = "0.13"
bytes = "1"
serde = { version = "1", features = ["derive"] }
serde_json = "1"
thiserror = "2"
anyhow = "1"
axum = { version = "0.8", features = ["multipart"] }
tokio = { version = "1", features = ["full"] }
tower = { version = "0.5", features = ["util"] }
tower-http = { version = "0.6", features = ["cors", "trace", "timeout", "request-id", "catch-panic", "sensitive-headers", "fs", "util"] }
tracing = "0.1"
tracing-subscriber = { version = "0.3", features = ["env-filter", "json"] }
moka = { version = "0.12", features = ["sync"] }
num_cpus = "1"
ab_glyph = "0.2"
metrics = "0.24"
metrics-exporter-prometheus = { version = "0.16", default-features = false }
opentelemetry = "0.27"
opentelemetry_sdk = { version = "0.27", features = ["rt-tokio"] }
opentelemetry-otlp = { version = "0.27", default-features = false, features = ["trace", "http-proto", "reqwest-client"] }
tracing-opentelemetry = "0.28"
opencv = { version = "0.94", default-features = false, features = ["imgcodecs", "imgproc"] }
