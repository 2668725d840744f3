[package]
name = "musicsync"
version = "0.1.0"
edition = "2021"
publish = false

[dependencies]
hex = "=0.4.3"
percent-encoding = "=2.3.2"
ipnet = "=2.12.2"
argon2 = { version = "=0.5.3", features = ["std"] }
serde = { version = "=1.0.229", features = ["derive"] }
serde_json = "=1.0.154"
thiserror = "=2.0.21"
log = "=0.4.35"
tokio = { version = "=1.54.1", features = ["full"] }
tokio-rustls = "=0.26.6"
rustls = { version = "=0.23.46", features = ["ring"] }
rustls-pemfile = "=2.2.0"
rustls-pki-types = "=1.15.1"
futures-util = "=0.3.34"
