[package]
name = "relay_server"
version = "0.1.0"
edition = "2021"
publish = false

[dependencies]
bytes = "1"
clap = { version = "4", features = ["derive"] }
env_logger = "0.11"
futures = "0.3"
interceptor = "=0.7.7"
log = "0.4"
rtp = "=0.6.5"
tokio = { version = "1", features = ["full"] }
tokio-tungstenite = "=0.16.1"
webrtc = "=0.3.4"
webrtc-util = "=0.5.4"
x25519-dalek = { version = "2", features = ["static_secrets"] }

[dev-dependencies]
bincode = "=1.3.3"
