[package]
name = "interaction_gateway"
version = "0.1.0"
edition = "2021"
publish = false

[dependencies]
ed25519-dalek = "*"
base64 = "*"
actix-web = "*"
tokio = { version = "*", features = ["rt-multi-thread", "macros"] }
reqwest = { version = "*", default-features = false, features = ["json"] }
chrono = "*"
serde_json = "*"
log = "*"
env_logger = "*"

[dev-dependencies]
hex = "*"
