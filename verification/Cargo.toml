[package]
name = "trivy-web"
version = "0.1.0"
edition = "2021"
publish = false

[dependencies]
askama = "=0.14.0"
axum = "=0.8.9"
chrono = { version = "=0.4.45", features = ["serde"] }
clap = { version = "=4.6.7", features = ["derive", "env"] }
docker-registry-client = "=0.5.0"
eyre = "=0.6.14"
maud = "=0.27.0"
minify-html = "=0.16.5"
redis = { version = "=1.8.0", features = ["tokio-comp"] }
redis-macros = "=1.0.1"
serde = { version = "=1.0.229", features = ["derive"] }
serde_json = "=1.0.154"
tokio = { version = "=1.54.1", features = ["full"] }
tower-http = { version = "=0.7.1", features = ["compression-gzip"] }
tracing = "=0.1.44"
tracing-subscriber = "=0.3.23"
url = { version = "=2.5.8", features = ["serde"] }
x509-parser = "=0.18.1"
