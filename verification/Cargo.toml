[package]
name = "hathora_client"
version = "0.1.0"
edition = "2021"
publish = false

[dependencies]
base64 = "=0.13.1"
anyhow = "=1.0.104"
reqwest = { version = "=0.11.27", default-features = false, features = ["blocking"] }
tungstenite = { version = "=0.17.3", features = ["native-tls"] }
