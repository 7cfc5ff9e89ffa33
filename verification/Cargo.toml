[package]
name = "intercom_cam"
version = "0.1.0"
edition = "2021"
publish = false

[dependencies]
anyhow = "1"
ffmpeg-next = "7"
serde_json = "1"
tokio = { version = "1", features = ["full"] }
webrtc = "0.12"
