[package]
name = "miru_core"
version = "0.1.0"
edition = "2021"
publish = false

[dependencies]
directories = "*"
serde = { version = "*", features = ["derive"] }
toml = "*"
reqwest = { version = "*", default-features = false, features = ["rustls-tls"] }
scraper = "*"
urlencoding = "*"
tokio = { version = "*", features = ["rt", "macros"] }
serde_bencode = "*"
