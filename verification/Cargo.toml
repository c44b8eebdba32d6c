[package]
name = "gh_scaleset_pve"
version = "0.1.0"
edition = "2021"
publish = false

[dependencies]
axum = "=0.8.9"
bytes = "=1.12.1"
chrono = { version = "=0.4.45", features = ["serde"] }
color-eyre = "=0.6.5"
config = { version = "=0.15.27", default-features = false }
derive_more = { version = "=2.1.1", features = ["display"] }
dotenvy = "=0.15.7"
hex = "=0.4.3"
hmac = "=0.12.1"
http-body = "=1.1.0"
http-body-util = "=0.1.5"
octocrab = "=0.44.1"
pin-project-lite = "=0.2.17"
proxmox-client = "=0.9.2"
rand = "=0.9.5"
secrecy = { version = "=0.10.3", features = ["serde"] }
serde = { version = "=1.0.229", features = ["derive"] }
serde_json = "=1.0.154"
serde_with = { version = "=3.24.0", features = ["chrono"] }
serde_yaml = "=0.9.34"
sha2 = "=0.10.9"
thiserror = "=2.0.21"
tokio = { version = "=1.54.1", features = ["full"] }
tower-layer = "=0.3.3"
tower-service = "=0.3.3"
tracing = "=0.1.44"
tracing-kickstart = "=0.10.1"
url = { version = "=2.5.8", features = ["serde"] }
urlencoding = "=2.1.3"
