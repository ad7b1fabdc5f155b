[package]
name = "digital_paper"
version = "0.1.0"
edition = "2021"
publish = false

[dependencies]
anyhow = "1"
base64 = "0.22"
clap = { version = "4", features = ["derive"] }
crossterm = "0.28"
hmac = "0.12"
if-addrs = "0.13"
num-bigint = "0.4"
openssl = "0.10"
parking_lot = "0.12"
pbkdf2 = "0.12"
percent-encoding = "2"
rand = "0.8"
ratatui = "0.29"
reqwest = { version = "0.12", features = ["blocking", "json", "cookies", "multipart"] }
rfd = "0.15"
serde = { version = "1", features = ["derive"] }
serde_json = "1"
sha2 = "0.10"
thiserror = "1"
uuid = { version = "1", features = ["v4"] }
walkdir = "2"
