[package]
name = "smalld"
version = "0.1.0"
edition = "2021"
publish = false

[dependencies]
url = "=2.5.8"
ureq = "=2.12.1"
tungstenite = { version = "=0.30.0", features = ["rustls-tls-webpki-roots"] }
