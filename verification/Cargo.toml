[package]
name = "keyflow"
version = "0.1.0"
edition = "2021"
publish = false

[dependencies]
aes-gcm = "0.10"
argon2 = "0.5"
base64 = "0.22"
rand = "0.9"
arboard = "3"
dirs = "6"
x11rb = "0.13"
enigo = "0.6"
clap = { version = "4", features = ["derive"] }
serde = { version = "1", features = ["derive"] }
toml = "0.8"
anyhow = "1"
thiserror = "2"
log = "0.4"
env_logger = "0.11"
ctrlc = "3"
rpassword = "7"
