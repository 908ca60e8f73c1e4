[package]
name = "pg-kinetic-proxy"
version = "0.1.0"
edition = "2021"
publish = false

[dependencies]
anyhow = "1"
base64 = "0.22"
bytes = "1"
clap = { version = "4", features = ["derive", "env"] }
getrandom = "*"
hmac = "*"
md-5 = "*"
metrics = "*"
metrics-exporter-prometheus = "*"
pbkdf2 = "*"
serde = { version = "1", features = ["derive"] }
serde_json = "1"
sha2 = "*"
subtle = "2"
tokio = { version = "1", features = ["full"] }
toml = "*"
tracing = "0.1"
