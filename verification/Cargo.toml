[package]
name = "docs_search"
version = "0.1.0"
edition = "2021"
publish = false

[dependencies]
anyhow = "=1.0.104"
axum = "=0.6.20"
axum-macros = "=0.3.8"
axum-streams = { version = "=0.9.1", features = ["text"] }
futures = "=0.3.34"
openai = "1.0.0-alpha.8"
qdrant-client = "=1.6.0"
serde = { version = "=1.0.229", features = ["derive"] }
serde_json = "=1.0.154"
shuttle-axum = "=0.18.0"
shuttle-runtime = "=0.18.0"
shuttle-secrets = "=0.18.0"
shuttle-static-folder = "=0.18.0"
tokio = "=1.54.1"
tokio-stream = "=0.1.19"
tower-http = { version = "=0.4.4", features = ["fs"] }
