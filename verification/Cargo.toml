[package]
name = "weft"
version = "0.1.0"
edition = "2021"
publish = false

[dependencies]
anyhow = "1"
base64 = "0.22"
futures-util = "0.3"
libc = "0.2"
rmp-serde = "1"
sd-notify = "0.4"
serde = { version = "1", features = ["derive"] }
serde_json = "1"
seccompiler = "0.4"
tokio = { version = "1", features = ["full"] }
tokio-tungstenite = "0.24"
toml = "0.8"
tracing = "0.1"
tracing-subscriber = { version = "0.3", features = ["env-filter"] }
tungstenite = "0.24"
ureq = "2"
