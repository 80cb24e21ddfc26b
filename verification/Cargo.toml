[package]
name = "shiratsu"
version = "0.1.0"
edition = "2021"
publish = false

[dependencies]
quick-xml = { version = "=0.42.0", features = ["serialize"] }
serde = { version = "=1.0.229", features = ["derive"] }
serde_json = "=1.0.154"
serde_yaml = "=0.9.34"
walkdir = "=2.5.0"
glob = "=0.3.4"
anyhow = "=1.0.104"
console = "=0.16.6"
indicatif = "=0.18.6"
slog = "=2.8.2"
slog-async = "=2.8.0"
slog-term = "=2.9.2"
regex = "1"
