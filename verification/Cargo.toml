[package]
name = "pia_wireguard"
version = "0.1.0"
edition = "2021"
publish = false

[dependencies]
anyhow = "1"
base64 = "0.13"
chrono = "0.4"
interfaces = "*"
iptables = "*"
regex = "1"
reqwest = { version = "0.11", default-features = false, features = ["json", "rustls-tls"] }
serde = { version = "1", features = ["derive"] }
serde_json = "1"
sysctl = "*"
tokio = { version = "1", features = ["fs", "macros", "rt-multi-thread", "sync", "time"] }
