[package]
name = "orchid_core"
version = "0.1.0"
edition = "2021"
publish = false

[dependencies]
serde = { version = "=1.0.229", features = ["derive"] }
serde_json = "=1.0.154"
uuid = { version = "=1.29.0", features = ["v4"] }
chrono = { version = "=0.4.45", features = ["serde"] }
getrandom = "=0.2.17"
hex = "=0.4.3"
globset = "=0.4.21"
dirs = "=5.0.1"
nix = { version = "=0.29.0", features = ["signal"] }
reqwest = { version = "=0.12.28", default-features = false, features = ["blocking", "json", "rustls-tls"] }
tiktoken-rs = "=0.6.0"
fancy-regex = "=0.13.0"

[dev-dependencies]
tempfile = "=3.27.0"
