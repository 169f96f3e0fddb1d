[package]
name = "word_game"
version = "0.1.0"
edition = "2021"
publish = false

[dependencies]
serde = { version = "=1.0.229", features = ["derive"] }
serde_json = "=1.0.151"
tokio = { version = "=1.53.2", features = ["full"] }
tokio-stream = "=0.1.19"
warp = { version = "=0.4.3", features = ["server", "websocket"] }
futures = "=0.3.34"
pretty_env_logger = "=0.5.0"
rand = "=0.10.3"
