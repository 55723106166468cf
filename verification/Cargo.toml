[package]
name = "postgres_mcp"
version = "0.1.0"
edition = "2021"
publish = false

[dependencies]
serde_json = "=1.0.154"
anyhow = "=1.0.104"
tokio = { version = "=1.54.1", features = ["rt", "macros"] }
tokio-postgres = { version = "=0.7.18", features = ["with-serde_json-1"] }
tokio-postgres-rustls = { version = "=0.14.0", features = ["native-certs", "webpki-roots"] }
tracing = "=0.1.44"
