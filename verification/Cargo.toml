[package]
name = "tangomike"
version = "0.1.0"
edition = "2021"
publish = false

[dependencies]
async-stream = "0.3"
async-trait = "0.1"
chrono = "0.4"
clap = { version = "4", features = ["derive"] }
figment = { version = "0.10", features = ["toml"] }
haversine = "*"
log = "0.4"
prost = "0.13"
reqwest = { version = "0.12", default-features = false, features = ["json", "rustls-tls"] }
rstar = "0.12"
serde = { version = "1", features = ["derive"] }
serde_json = "1"
serde_yaml = "0.9"
simplelog = "0.12"
tokio = { version = "1", features = ["full"] }
tokio-stream = "0.1"
tonic = "0.12"
