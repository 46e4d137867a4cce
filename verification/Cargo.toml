[package]
name = "mediarr-core"
version = "0.1.0"
edition = "2021"
publish = false

[dependencies]
hunch = { version = "=2.0.4", default-features = false }
isolang = { version = "=2.4.0", features = ["english_names", "lowercase_names"] }
sanitize-filename = "=0.6.0"
regex-syntax = "=0.8.11"
dirs = "=7.0.0"
walkdir = "=2.5.0"
serde = { version = "=1.0.229", features = ["derive"] }
serde_json = "=1.0.154"
toml = "=1.1.8"
chrono = "=0.4.45"
uuid = { version = "=1.29.0", features = ["v4"] }
rusqlite = { version = "=0.41.1", features = ["bundled"] }
clap = { version = "=4.6.7", features = ["derive"] }
anyhow = "=1.0.104"
comfy-table = "=8.0.1"
owo-colors = "=4.4.0"
notify = "=8.2.1"
notify-debouncer-full = "=0.7.0"
tokio = { version = "=1.54.1", features = ["rt", "macros", "sync", "time"] }

[dev-dependencies]
regex = "=1.13.1"
tempfile = "=3.27.0"
