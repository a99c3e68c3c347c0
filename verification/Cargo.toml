[package]
name = "nuboxido_warp"
version = "0.1.0"
edition = "2021"
publish = false

[dependencies]
base64 = "0.21"
chrono = { version = "0.4", features = ["serde"] }
cloudevents-sdk = { version = "0.7", features = ["warp"] }
env_logger = "0.10"
log = "0.4"
serde = { version = "1", features = ["derive"] }
serde_json = "1"
tokio = { version = "1", features = ["macros", "rt-multi-thread"] }
url = { version = "2", features = ["serde"] }
warp = "0.3"
