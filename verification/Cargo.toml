[package]
name = "rust_download"
version = "0.1.0"
edition = "2021"
publish = false

[dependencies]
anyhow = "1"
chrono = { version = "0.4", default-features = false, features = ["clock", "serde"] }
dirs = "*"
futures = "0.3"
librqbit = { version = "8", default-features = false, features = ["rust-tls"] }
open = "5"
reqwest = { version = "0.12", default-features = false, features = ["rustls-tls", "stream"] }
rfd = { version = "0.15", default-features = false, features = ["xdg-portal", "tokio"] }
serde = { version = "1", features = ["derive"] }
serde_json = "1"
tokio = { version = "1", features = ["fs", "io-util", "macros", "rt-multi-thread", "sync", "time"] }
tokio-util = "0.7"
tracing = "0.1"
tracing-subscriber = "0.3"
url = "2"
urlencoding = "2"
uuid = { version = "1", features = ["v4"] }
