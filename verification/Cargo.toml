[package]
name = "shareflow"
version = "0.1.0"
edition = "2021"
publish = false

[dependencies]
arboard = "3"
base64 = "0.22"
bincode = "1"
env_logger = "0.11"
local-ip-address = "0.6"
log = "0.4"
rcgen = "0.13"
rustls = "0.23"
rustls-pemfile = "2"
serde = { version = "1", features = ["derive"] }
serde_json = "1"
sha2 = "0.10"
tokio = { version = "1", features = ["full"] }
tokio-rustls = "0.26"
uuid = { version = "1", features = ["v4"] }
