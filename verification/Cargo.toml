[package]
name = "nobilis"
version = "0.1.0"
edition = "2021"
publish = false

[dependencies]
anyhow = "1"
base64 = "=0.22.1"
chrono = { version = "=0.4.45", default-features = false, features = ["clock", "std"] }
cpal = "0.15"
davey = "0.1.5"
dirs = "=7.0.0"
futures = { version = "0.3", default-features = false, features = ["std"] }
image = { version = "=0.25.10", default-features = false, features = ["png"] }
qrcode = "=0.14.1"
rand = "=0.8.8"
reqwest = { version = "=0.12.28", default-features = false, features = ["json", "multipart", "rustls-tls"] }
rsa = "=0.9.10"
serde = { version = "1", features = ["derive"] }
serde_json = "=1.0.154"
sha2 = "=0.10.9"
tokio = { version = "1", default-features = false, features = ["macros", "net", "rt-multi-thread", "sync", "time"] }
tokio-tungstenite = { version = "=0.30.0", features = ["rustls-tls-webpki-roots"] }
toml = "0.8"
tracing = { version = "0.1", default-features = false, features = ["std"] }
url = "=2.5.8"
