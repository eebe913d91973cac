[package]
name = "spawningpool"
version = "0.1.0"
edition = "2021"
publish = false

[dependencies]
serde = { version = "=1.0.229", features = ["derive"] }
serde_json = "=1.0.154"
jsonschema = { version = "=0.60.2", default-features = false }
clap = { version = "=4.6.7", features = ["derive"] }
ratatui = "=0.30.2"
reqwest = { version = "0.12", default-features = false, features = ["blocking", "json", "rustls-tls"] }
