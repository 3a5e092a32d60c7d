[package]
name = "carillon_backend"
version = "0.1.0"
edition = "2021"
publish = false

[dependencies]
age = "=0.12.1"
anyhow = "=1.0.104"
axum = "=0.8.9"
base64 = "=0.23.1"
hex = "=0.4.3"
hmac = "=0.13.0"
io-http = "=0.5.0"
io-imap = "=0.7.1"
io-oauth = "=0.3.0"
io-pim-discovery = { version = "=0.9.0", features = ["autoconfig", "pacc", "rfc6186", "rfc6764", "rfc8414", "rfc8620"] }
io-webdav = "=0.5.1"
pimalaya-stream = "=0.3.0"
rand = "=0.10.3"
reqwest = { version = "=0.12.28", default-features = false, features = ["rustls-tls"] }
rusqlite = { version = "=0.41.1", features = ["bundled"] }
rustls = { version = "=0.23.46", default-features = false, features = ["ring", "std", "tls12"] }
rustls-platform-verifier = "=0.7.1"
secrecy = "=0.10.3"
serde = { version = "1", features = ["derive"] }
serde_json = "=1.0.154"
sha2 = "=0.11.1"
socket2 = "=0.6.5"
tokio = { version = "1", features = ["full"] }
tokio-rustls = { version = "0.26", default-features = false, features = ["ring", "tls12"] }
tokio-stream = "0.1"
toml = "=1.1.8"
tower-http = { version = "=0.7.1", features = ["cors", "fs"] }
tracing = "0.1"
tracing-subscriber = { version = "0.3", features = ["env-filter"] }
url = "=2.5.8"
