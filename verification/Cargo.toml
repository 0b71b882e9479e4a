[package]
name = "axum_video_upload"
version = "0.1.0"
edition = "2021"
publish = false

[dependencies]
uuid = { version = "1", features = ["v4"] }
infer = "*"
axum = { version = "0.8", features = ["multipart"] }
tokio = { version = "1", features = ["full"] }
tokio-util = { version = "0.7", features = ["io"] }
tower-http = { version = "0.6", features = ["cors"] }
futures-util = "0.3"
serde = { version = "1", features = ["derive"] }
serde_json = "1"
prometheus = "*"
once_cell = "1"
lazy_static = "1"
log = "0.4"
log4rs = "1"
dotenv = "0.15"
