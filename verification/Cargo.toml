[package]
name = "helios"
version = "0.1.0"
edition = "2021"
publish = false

[dependencies]
aes-gcm = "0.10"
anyhow = "1"
base64 = "0.22"
chrono = "0.4"
clap = { version = "4", features = ["derive"] }
crossterm = "0.27"
directories = "5"
keyring = { version = "2", default-features = false }
pbkdf2 = "0.12"
rand = "0.8"
ratatui = "0.26"
reqwest = { version = "0.11", default-features = false, features = ["cookies", "rustls-tls"] }
serde = { version = "1", features = ["derive"] }
serde_json = "1"
serde_urlencoded = "0.7"
serde_yaml = "0.9"
sha2 = "0.10"
tokio = { version = "1", features = ["macros", "rt-multi-thread"] }
uuid = { version = "1", features = ["v4"] }
