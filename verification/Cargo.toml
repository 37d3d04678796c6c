[package]
name = "llamapackageservice"
version = "0.1.0"
edition = "2021"
publish = false

[dependencies]
regex = "=1.13.1"
url = "=2.5.8"
serde = { version = "=1.0.229", features = ["derive"] }
serde_json = "=1.0.154"
chrono = "=0.4.45"
tokio = { version = "=1.54.1", features = ["full"] }
reqwest = { version = "=0.12.28", default-features = false, features = ["json", "rustls-tls"] }
walkdir = "=2.5.0"
zip = "=0.6.6"
tempfile = "=3.27.0"
clap = { version = "=4.6.7", features = ["derive"] }
indicatif = "=0.17.11"
colored = "=2.2.0"
log = "=0.4.35"
env_logger = "=0.11.11"
uuid = { version = "=1.29.0", features = ["v4"] }
flate2 = "=1.1.10"
tar = "=0.4.46"
scraper = "=0.18.1"
toml = "=0.8.23"
pathdiff = "=0.2.3"
tracing = "=0.1.44"
axum = "0.7"
tower-http = { version = "=0.6.11", features = ["cors", "trace"] }
tracing-subscriber = "0.3"
