[package]
name = "paint_game"
version = "0.1.0"
edition = "2021"
publish = false

[dependencies]
redis = { version = "=0.23.5", features = ["tokio-comp", "connection-manager", "streams", "tokio-rustls-comp"] }
uuid = { version = "=1.29.0", features = ["v4"] }
tokio = { version = "=1.54.1", features = ["macros", "rt-multi-thread", "sync"] }
tokio-stream = "=0.1.19"
futures-util = "=0.3.34"
warp = "=0.3.7"
serde = { version = "=1.0.229", features = ["derive"] }
log = "=0.4.35"
env_logger = "=0.10.2"
tungstenite = "=0.18.0"
url = "=2.5.8"

[dev-dependencies]
serde_json = "=1.0.154"
