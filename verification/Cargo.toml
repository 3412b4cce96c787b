[package]
name = "https_redirect"
version = "0.1.0"
edition = "2021"
publish = false

[dependencies]
http = "0.2"
axum = "0.6"
axum-server = { version = "0.5", features = ["tls-rustls"] }
tokio = { version = "1", features = ["full"] }
tracing = "0.1"
tracing-subscriber = { version = "0.3", features = ["env-filter"] }
