[package]
name = "iherb-cli"
version = "0.1.1"
edition = "2021"
publish = false

[dependencies]
sha2 = "=0.11.1"
hex = "=0.4.3"
url = "=2.5.8"
time = { version = "=0.3.55", features = ["formatting"] }
scraper = "=0.29.0"
anyhow = "=1.0.104"
thiserror = "=2.0.21"
clap = { version = "=4.6.7", features = ["derive"] }
tokio = { version = "=1.54.1", features = ["full"] }
chromiumoxide = "=0.9.1"
futures = "=0.3.34"
ctrlc = "=3.5.2"
dirs = "=7.0.0"
libc = "=0.2.191"
reqwest = { version = "=0.12.28", default-features = false, features = ["rustls-tls", "json"] }
serde = { version = "=1.0.229", features = ["derive"] }
serde_json = "=1.0.154"
toml = "=1.1.8"
tracing = "=0.1.44"
tracing-subscriber = { version = "=0.3.23", features = ["env-filter"] }
zip = { version = "=9.2.2", default-features = false, features = ["deflate"] }
