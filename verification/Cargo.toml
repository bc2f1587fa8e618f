[package]
name = "perthtransport"
version = "0.1.0"
edition = "2021"
publish = false

[dependencies]
anyhow = "1"
async-graphql = { version = "7", default-features = false }
axum = { version = "0.7", features = ["ws"] }
base64 = "0.22"
chrono = "0.4"
chrono-tz = "0.10"
config = { version = "0.14", default-features = false }
flume = "0.11"
futures-util = "0.3"
http = "1"
lazy_static = "1"
rand = "0.9"
redis = { version = "0.27", features = ["tokio-comp", "connection-manager"] }
reqwest = { version = "0.12", default-features = false, features = ["json"] }
reqwest-middleware = "0.4"
reqwest-tracing = "0.5"
rust-crypto = "0.2"
serde = { version = "1", features = ["derive"] }
serde_json = "1"
tokio = { version = "1", features = ["full"] }
tower = { version = "0.5", features = ["limit"] }
tower-http = { version = "0.6", features = ["trace", "cors"] }
tracing = "0.1"
tracing-subscriber = { version = "0.3", features = ["env-filter"] }
uuid = { version = "1", features = ["v4"] }
