[package]
name = "rterm"
version = "0.1.0"
edition = "2021"
publish = false

[dependencies]
aes-gcm = "0.10"
argon2 = "0.5"
base64 = "0.22"
chrono = "0.4"
dark-light = "2"
dirs = "6"
fontdb = "0.23"
futures = "0.3"
log = "0.4"
rand = "0.9"
russh = { version = "*", default-features = false, features = ["ring"] }
russh-sftp = "*"
secrecy = "0.10"
serde = { version = "1", features = ["derive"] }
sys-locale = "0.3"
thiserror = "2"
tokio = { version = "1", features = ["full"] }
toml = "*"
zeroize = "1"
