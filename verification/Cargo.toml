[package]
name = "dlsite_renamer"
version = "0.1.0"
edition = "2021"
publish = false

[dependencies]
regex = "1"
scraper = "*"
serde_json = "1"
clap = { version = "4", features = ["derive"] }
log = "0.4"
my_logger = "*"
reqwest = { version = "*", default-features = false, features = ["rustls-tls"] }
tokio = { version = "1", features = ["full"] }
