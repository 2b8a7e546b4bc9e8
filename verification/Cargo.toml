[package]
name = "graphql_rust"
version = "0.1.0"
edition = "2021"
publish = false

[dependencies]
anyhow = "1"
async-graphql = { version = "7", features = ["dataloader"] }
async-graphql-axum = "7"
axum = "*"
bytes = "1"
deadpool-postgres = "*"
figment = { version = "*", features = ["env"] }
futures-util = "*"
rustc-hash = "2"
serde = { version = "1", features = ["derive"] }
tokio = { version = "1", features = ["full"] }
tokio-postgres = "*"
tower = "*"
tower-http = { version = "*", features = ["catch-panic", "propagate-header", "request-id", "timeout", "trace", "util"] }
tower-service = "*"
tracing = "*"
tracing-subscriber = { version = "*", features = ["env-filter", "time"] }
uuid = { version = "1", features = ["v4"] }
