[package]
name = "bilidown"
version = "0.1.0"
edition = "2021"
publish = false

[dependencies]
anyhow = "*"
clap = { version = "*", features = ["derive"] }
dirs = "*"
futures-util = "*"
indicatif = "*"
reqwest = { version = "*", default-features = false, features = ["rustls-tls", "stream", "gzip"] }
tempfile = "*"
tokio = { version = "*", features = ["full"] }
