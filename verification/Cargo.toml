[package]
name = "syncdaq_web"
version = "0.1.0"
edition = "2021"

[dependencies]
askama = "*"
axum = { version = "0.8", features = ["ws"] }
chrono = "0.4"
futures-util = "0.3"
num-complex = "0.4"
rustfft = "6"
serde = { version = "1", features = ["derive"] }
serde_json = "1"
serde_yaml = "0.9"
tokio = { version = "1", features = ["full"] }
tracing = "0.1"
tracing-subscriber = { version = "0.3", features = ["env-filter"] }
