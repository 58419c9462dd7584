[package]
name = "slack_reader"
version = "0.1.0"
edition = "2021"
publish = false

[dependencies]
aes = "=0.7.5"
block-modes = "0.8"
pbkdf2 = "=0.12.2"
sha1 = "=0.10.7"
fake = "=2.9.2"
rand = "=0.8.8"
url = "=2.5.8"
serde = { version = "=1.0.229", features = ["derive"] }
serde_json = "=1.0.151"
clap = { version = "=4.5.61", features = ["derive"] }
colored = "=2.2.0"
env_logger = "=0.10.2"
log = "=0.4.34"
keyring = "=2.3.3"
regex = "=1.13.1"
reqwest = { version = "=0.11.27", default-features = false, features = ["blocking"] }
sqlite = "=0.36.2"
