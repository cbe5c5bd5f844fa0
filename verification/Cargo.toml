[package]
name = "blezer"
version = "0.1.0"
edition = "2021"
publish = false

[dependencies]
anyhow = "1"
axum = "0.8"
btleplug = "*"
clap = { version = "4", features = ["derive"] }
dirs = "*"
futures = "0.3"
image = { version = "*", default-features = false, features = ["png"] }
rusqlite = { version = "*", features = ["bundled"] }
serde = { version = "1", features = ["derive"] }
serde_json = "1"
tao = "*"
tokio = { version = "1", features = ["full"] }
tracing = "0.1"
tracing-subscriber = { version = "0.3", features = ["env-filter"] }
tray-icon = "*"
