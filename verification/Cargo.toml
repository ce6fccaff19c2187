[package]
name = "rac_client"
version = "0.1.0"
edition = "2021"
publish = false

[dependencies]
anyhow = "=1.0.104"
log = "=0.4.34"
rac_rs = "*"
serde = { version = "=1.0.229", features = ["derive"] }
tauri = { version = "=2.12.5", default-features = false }
tauri-plugin-log = "=2.10.1"
thiserror = "=2.0.21"
tokio = { version = "=1.54.1", features = ["io-util", "net", "sync"] }

[dev-dependencies]
regex = "=1.13.1"
