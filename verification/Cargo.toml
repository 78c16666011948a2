[package]
name = "clippin"
version = "0.1.0"
edition = "2021"
publish = false

[dependencies]
block2 = "0.6"
directories = "6"
env_logger = "0.11"
log = "0.4"
objc2 = "0.6"
objc2-app-kit = "0.3"
objc2-core-graphics = "0.3"
objc2-foundation = "0.3"
rusqlite = { version = "=0.37.0", features = ["bundled", "functions"] }
serde_json = "=1.0.154"
sha2 = "=0.10.9"
thiserror = "2"
