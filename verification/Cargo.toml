[package]
name = "docstore"
version = "0.1.0"
edition = "2021"
publish = false

[dependencies]
axum = { version = "=0.6.20", features = ["headers", "multipart"] }
chrono = { version = "=0.4.45", features = ["serde"] }
config = { version = "=0.13.4", default-features = false, features = ["json"] }
hex = "=0.4.3"
jsonwebtoken = "=8.3.0"
mime = "=0.3.17"
regex = "=1.13.1"
rust-s3 = { version = "=0.33.0", default-features = false, features = ["tokio-rustls-tls"] }
serde = { version = "=1.0.229", features = ["derive"] }
serde_json = "=1.0.154"
sha2 = "=0.10.9"
tokio = { version = "=1.54.1", features = ["full"] }
tower-http = { version = "=0.4.4", features = ["cors", "trace", "fs"] }
tracing = "=0.1.44"
tracing-appender = "=0.2.5"
tracing-subscriber = { version = "=0.3.23", features = ["env-filter", "json"] }
uuid = { version = "=1.29.0", features = ["v4", "serde"] }
