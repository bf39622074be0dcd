[package]
name = "urd"
version = "0.1.0"
edition = "2021"
publish = false

[dependencies]
aes-gcm = "0.10"
base64 = "0.22"
url = "2"
local-ip-address = "0.6"
serde = { version = "1", features = ["derive"] }
serde_yaml = "0.9"
clap = { version = "4", features = ["derive"] }
anyhow = "1"
crossterm = "0.28"
ratatui = "0.29"
dialoguer = "0.11"
dirs = "5"
