[package]
name = "megacore"
version = "0.1.0"
edition = "2021"
publish = false

[dependencies]
aes = "0.7"
ctr = "0.8"
block-modes = "0.8"
base64 = "0.22"
hmac = "0.12"
pbkdf2 = "0.12"
sha2 = "0.10"
rsa = "0.9"
rand = "0.8"
anyhow = "1"
serde = { version = "1", features = ["derive"] }
serde_json = "1"
clap = { version = "4", features = ["derive"] }
env_logger = "0.11"
log = "0.4"
tokio = { version = "1", features = ["full"] }
reqwest = { version = "0.12", features = ["json", "gzip"] }
