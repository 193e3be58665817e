[package]
name = "patter"
version = "0.1.0"
edition = "2021"
publish = false

[dependencies]
anyhow = "=1.0.104"
serde = { version = "=1.0.229", features = ["derive"] }
serde_json = "=1.0.154"
reqwest = { version = "=0.12.28", default-features = false, features = ["blocking", "json", "rustls-tls", "stream"] }
futures-util = "=0.3.34"
rustfft = "=6.4.1"
arboard = "=3.7.0"
enigo = "=0.2.1"
cpal = "=0.15.3"
sha2 = "0.10"
