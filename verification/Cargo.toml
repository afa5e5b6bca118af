[package]
name = "graphgarden"
version = "0.1.0"
edition = "2021"
publish = false

[dependencies]
anyhow = "*"
clap = { version = "*", features = ["derive"] }
globset = "*"
reqwest = { version = "*", default-features = false, features = ["blocking", "rustls-tls"] }
serde = { version = "*", features = ["derive"] }
serde_json = "*"
thiserror = "*"
toml = "*"
url = "*"
walkdir = "*"
