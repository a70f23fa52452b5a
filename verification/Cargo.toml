[package]
name = "crazytime_server"
version = "0.1.0"
edition = "2021"
publish = false

[dependencies]
axum = { version = "*", features = ["ws"] }
base64 = "*"
bytes = "*"
chrono = { version = "0.4", features = ["serde"] }
color-eyre = "*"
rand = "*"
serde = { version = "1", features = ["derive"] }
serde_json = "1"
tokio = { version = "1", features = ["full"] }
tokio-util = { version = "*", features = ["rt"] }
tracing = "*"
