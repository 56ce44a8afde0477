[package]
name = "simeis"
version = "0.1.0"
edition = "2021"
publish = false

[dependencies]
base64 = "=0.23.1"
serde_json = "=1.0.154"
rand = "=0.10.3"
serde = { version = "=1.0.229", features = ["derive"] }
strum = { version = "=0.28.0", features = ["derive"] }
log = "=0.4.35"
env_logger = "=0.11.11"
mea = "=0.6.7"
