[package]
name = "vpsguard"
version = "0.1.0"
edition = "2021"
publish = false

[dependencies]
base64 = "0.22"
tokio = { version = "1", features = ["full"] }
async-trait = "0.1"
clap = { version = "4", features = ["derive"] }
color-eyre = "0.6"
serde = { version = "1", features = ["derive"] }
toml = "0.8"
thiserror = "1"
tracing-subscriber = { version = "0.3", features = ["env-filter"] }
russh = "0.45"
rusqlite = { version = "0.31", features = ["bundled"] }
