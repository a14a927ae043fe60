[package]
name = "tapi"
version = "0.1.0"
edition = "2021"
publish = false

[dependencies]
anyhow = "=1.0.104"
axum = "=0.8.9"
base64 = "=0.22.1"
blake3 = "=1.8.7"
chacha20poly1305 = "=0.10.1"
chrono = { version = "=0.4.45", default-features = false, features = ["std", "clock"] }
clap = { version = "=4.6.7", features = ["derive"] }
hex = "=0.4.3"
image = { version = "=0.25.10", default-features = false, features = ["jpeg", "png", "webp"] }
lopdf = "=0.46.0"
machine-uid = "=0.6.0"
mime_guess = "=2.0.5"
regex = "=1.13.1"
reqwest = { version = "=0.12.28", default-features = false, features = ["rustls-tls", "multipart", "stream", "json"] }
sanitize-filename = "=0.6.0"
serde = { version = "=1.0.229", features = ["derive"] }
serde_json = "=1.0.154"
sysinfo = { version = "*", default-features = false, features = ["system"] }
thiserror = "=2.0.21"
tokio = { version = "=1.54.1", features = ["full"] }
tokio-util = { version = "=0.7.20", features = ["codec"] }
tower-http = { version = "=0.6.11", features = ["cors"] }
tracing-subscriber = "0.3"
walkdir = "=2.5.0"
zip = { version = "=9.0.5", default-features = false, features = ["deflate"] }
