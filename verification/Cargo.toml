[package]
name = "swarmdrop"
version = "0.1.0"
edition = "2021"
publish = false

[dependencies]
blake3 = "=1.8.7"
chacha20poly1305 = "=0.11.0"
sha2 = "=0.11.0"
rand = "=0.10.3"
uuid = { version = "=1.27.0", features = ["v4"] }
chrono = "=0.4.45"
walkdir = "=2.5.0"
path-slash = "=0.2.1"
pathdiff = "=0.2.3"
serde = { version = "*", features = ["derive"] }
serde_json = "*"
