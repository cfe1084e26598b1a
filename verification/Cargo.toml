[package]
name = "rust-pin-service"
version = "0.1.0"
edition = "2021"
publish = false

[dependencies]
aes-gcm = "0.10"
base64 = "0.22"
bson = "2"
futures = "0.3"
mongodb = "2"
prost = "0.12"
rand = "0.8"
reqwest = { version = "0.11", default-features = false, features = ["json", "rustls-tls"] }
serde = { version = "1", features = ["derive"] }
serde_yaml = "0.9"
tokio = { version = "1", features = ["full"] }
tonic = "0.11"
uuid = { version = "1", features = ["v4"] }
