[package]
name = "voice_assistant"
version = "0.1.0"
edition = "2021"
publish = false

[dependencies]
serde = { version = "1", features = ["derive"] }
serde_json = "1"
log = "0.4"
env_logger = "0.11"
parking_lot = "0.12"
tokio = { version = "1", features = ["rt", "time"] }
reqwest = { version = "0.12", features = ["multipart"] }
cpal = "0.15"
whisper-rs = "0.14"
objc = "0.2"
block = "0.1"
