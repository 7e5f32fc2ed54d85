[package]
name = "musikquadrupled"
version = "0.1.0"
edition = "2021"
publish = false

[dependencies]
rust-argon2 = "1"
rand = "0.8"
scc = "2"
base64 = "0.21"
serde_qs = "0.12"
serde = { version = "1", features = ["derive"] }
serde_json = "1"
tokio = { version = "1", features = ["full"] }
axum = { version = "0.6", features = ["ws", "headers"] }
axum-server = { version = "0.5", features = ["tls-rustls"] }
axum-tungstenite = "0.3"
async-tungstenite = { version = "0.23", features = ["tokio-runtime"] }
hyper = { version = "0.14", features = ["client", "http1", "tcp"] }
http = "0.2"
tower-http = { version = "0.4", features = ["cors", "trace", "request-id", "sensitive-headers", "util"] }
futures = "0.3"
tracing = "0.1"
tracing-subscriber = { version = "0.3", features = ["env-filter"] }
dotenvy = "0.15"
