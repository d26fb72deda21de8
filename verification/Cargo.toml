[package]
name = "industrial_fixtures"
version = "0.1.0"
edition = "2021"
publish = false

[dependencies]
rasn = "*"
rasn-smi = "*"
rasn-snmp = "*"
sha2 = "0.10"
hmac = "0.12"
aes = "0.8"
cfb-mode = "0.8"
rand = "0.9"
bacnet-rs = "*"
rodbus = { version = "1", features = ["tls"] }
dnp3 = { version = "1", features = ["tls"] }
axum = "0.8"
axum-server = { version = "*", features = ["tls-rustls"] }
tokio = { version = "1", features = ["full"] }
tower = { version = "*", features = ["util"] }
serde = { version = "1", features = ["derive"] }
serde_json = "1"
tracing = "*"
tracing-subscriber = "*"
rustls = { version = "0.23", features = ["ring"] }
rustls-pemfile = "2"
anyhow = "1"
