[package]
name = "lucida-downloader"
version = "0.1.0"
edition = "2021"
publish = false

[dependencies]
clap = { version = "=4.6.7", features = ["derive"] }
futures = "=0.3.34"
headless_chrome = "=1.0.22"
json5 = "=1.3.7"
reqwest = { version = "=0.12.28", default-features = false, features = ["blocking", "charset", "cookies", "http2", "json", "rustls-tls"] }
serde = { version = "=1.0.229", features = ["derive"] }
serde_json = "=1.0.154"
tokio = { version = "=1.54.1", features = ["fs", "io-util", "macros", "rt", "signal", "sync", "time"] }
