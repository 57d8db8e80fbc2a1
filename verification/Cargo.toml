[package]
name = "kakimail"
version = "0.1.0"
edition = "2021"
publish = false

[dependencies]
anyhow = "=1.0.104"
base64 = "=0.22.1"
bcrypt = "=0.15.1"
chrono = "=0.4.45"
dotenv = "0.15"
fancy-regex = "=0.13.0"
hickory-resolver = "0.24"
mailparse = "=0.15.0"
reqwest = { version = "0.12", default-features = false, features = ["json", "rustls-tls"] }
rusqlite = { version = "=0.31.0", features = ["bundled", "functions"] }
rustls-pemfile = "=2.2.0"
tokio = { version = "=1.54.1", features = ["full"] }
tokio-rustls = { version = "=0.26.6", default-features = false, features = ["ring", "logging", "tls12"] }
tracing = "=0.1.44"
tracing-subscriber = "=0.3.23"
