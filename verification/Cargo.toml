[package]
name = "rustools-mcp"
version = "0.1.0"
edition = "2021"
publish = false

[dependencies]
anyhow = "=1.0.104"
axum = "=0.8.9"
chrono = "=0.4.45"
clap = { version = "=4.6.7", features = ["derive"] }
html2md = "=0.2.17"
ignore = "=0.4.34"
reqwest = { version = "=0.12.28", features = ["json"] }
reqwest-middleware = "=0.4.2"
reqwest-retry = "=0.7.0"
rmcp = { version = "=3.8.0", features = ["server", "transport-streamable-http-server"] }
schemars = "=1.2.3"
scraper = "=0.29.0"
serde = { version = "=1.0.229", features = ["derive"] }
serde_json = "=1.0.154"
strsim = "=0.11.1"
syn = { version = "=2.0.119", features = ["full"] }
tokio = { version = "=1.54.1", features = ["full"] }
toml = "=1.1.8"
tower-http = { version = "=0.7.1", features = ["cors"] }
tracing = "=0.1.44"
urlencoding = "=2.1.3"
