[package]
name = "flarion"
version = "0.9.0"
edition = "2021"
publish = false

[dependencies]
url = "=2.5.8"
regex = "=1.13.1"
nvml-wrapper = "=0.13.0"
serde_json = "=1.0.154"
serde = { version = "=1.0.229", features = ["derive"] }
toml = "=1.1.8"
clap = { version = "=4.6.7", features = ["derive"] }
anyhow = "=1.0.104"
dirs = "=7.0.0"
subtle = "=2.6.1"
reqwest = { version = "=0.12.28", default-features = false }
tokio = { version = "=1.54.1", features = ["rt-multi-thread", "macros"] }
metrics = "*"
metrics-exporter-prometheus = { version = "*", default-features = false }
