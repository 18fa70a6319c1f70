[package]
name = "braiinspool"
version = "0.1.0"
edition = "2021"
publish = false

[dependencies]
reqwest = { version = "0.12", default-features = false, features = ["rustls-tls", "socks"] }
serde_json = "1"
thiserror = "1"
url = "2"
