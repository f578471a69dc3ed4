[package]
name = "crabcrop"
version = "0.1.0"
edition = "2021"
publish = false

[dependencies]
hmac = "0.12"
sha2 = "0.10"
hex = "0.4"
blake3 = "1"
anyhow = "1"
bytes = "1"
serde = { version = "1", features = ["derive"] }
axum = "0.7"
tokio = { version = "1", features = ["full"] }
tower-http = { version = "0.5", features = ["trace", "cors", "timeout"] }
tracing = "0.1"
tracing-subscriber = { version = "0.3", features = ["env-filter"] }
moka = { version = "0.12", features = ["future"] }
reqwest = { version = "0.12", default-features = false }
aws-sdk-s3 = { version = "1", default-features = false }
sysinfo = "0.33"
libvips = "1.7"
thiserror = "1"
