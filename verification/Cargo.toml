[package]
name = "wine_cellar"
version = "0.1.0"
edition = "2021"
publish = false

[dependencies]
flate2 = "1"
futures-util = "0.3"
log = "0.4"
reqwest = { version = "0.12", default-features = false, features = ["rustls-tls", "stream"] }
serde = { version = "1", features = ["derive"] }
serde_json = "1"
tar = "0.4"
tokio = { version = "1", features = ["fs", "io-util", "rt", "sync"] }
xz2 = "0.1"
