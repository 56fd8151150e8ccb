[package]
name = "keymgr"
version = "0.1.0"
edition = "2021"
publish = false

[dependencies]
aes-gcm = "0.10"
argon2 = "0.5"
base64 = "0.22"
rand = "0.8"
chrono = "0.4"
dirs = "5"
zeroize = { version = "1", features = ["derive"] }
clap = { version = "4", features = ["derive"] }
rpassword = "7"
serde = { version = "1", features = ["derive"] }
serde_json = "1"
thiserror = "1"
