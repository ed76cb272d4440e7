[package]
name = "proxy_ingress"
version = "0.1.0"
edition = "2021"
publish = false

[dependencies]
axum = { version = "*", features = ["macros"] }
tokio = { version = "1", features = ["net", "rt"] }
tower = { version = "*", features = ["util"] }
tower-http = { version = "*", features = ["cors", "limit", "trace"] }
tracing = "0.1"
