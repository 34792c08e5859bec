[package]
name = "hyprsession"
version = "0.1.5"
edition = "2021"
publish = false

[dependencies]
argon2 = "=0.5.3"
clap = { version = "=4.6.7", features = ["derive"] }
hex = "=0.4.3"
hmac = "=0.12.1"
hyprland = "=0.4.0-alpha.3"
rand = "=0.8.8"
rpassword = "=7.5.4"
serde = { version = "=1.0.229", features = ["derive"] }
serde_json = "=1.0.154"
sha2 = "=0.10.9"
zeroize = "=1.9.1"
