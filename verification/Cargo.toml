[package]
name = "hush"
version = "0.1.0"
edition = "2021"
publish = false

[dependencies]
serde = { version = "1", features = ["derive"] }
serde_json = "1"
toml = "0.8"
ureq = { version = "2", default-features = false, features = ["json"] }
objc2 = "0.6"
objc2-foundation = "0.3"
objc2-app-kit = "0.3"
objc2-core-foundation = "0.3"
objc2-av-foundation = "0.3"
objc2-web-kit = "0.3"
block2 = "0.6"
core-foundation = "0.10"
core-graphics = "0.24"
cpal = "0.17"
whisper-rs = "0.15"
parakeet-rs = "0.4"
