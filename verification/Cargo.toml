[package]
name = "lsp-index"
version = "0.1.0"
edition = "2021"
publish = false

[dependencies]
url = "2"
serde = { version = "1", features = ["derive"] }
serde_json = "1"
tokio = { version = "1", features = ["full"] }
lsp-types = "0.94"
notify = "6"
grep = "0.3"
ignore = "0.4"
glob = "0.3"
dirs = "5"
reqwest = { version = "0.12", default-features = false, features = ["rustls-tls"] }
tar = "0.4"
flate2 = "1"
zip = { version = "2", default-features = false, features = ["deflate"] }
axum = "0.7"
tower-http = { version = "0.5", features = ["cors"] }
tracing = "0.1"
tracing-subscriber = { version = "0.3", features = ["env-filter", "fmt"] }
anyhow = "1"
