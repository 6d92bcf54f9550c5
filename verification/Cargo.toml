[package]
name = "webhook_queue"
version = "0.1.0"
edition = "2021"
publish = false

[dependencies]
orion = "0.17"
rustls-pemfile = "1"
rustls = "0.21"
actix = "0.13"
actix-web = { version = "4", features = ["rustls-0_21"] }
anyhow = "1"
config = { version = "0.13", default-features = false }
dotenvy = "0.15"
log = "0.4"
redis = { version = "0.23", features = ["tokio-comp", "connection-manager"] }
serde = { version = "1", features = ["derive"] }
serde_json = "1"
tracing = "0.1"
tracing-error = "0.2"
tracing-subscriber = { version = "0.3", features = ["env-filter"] }
