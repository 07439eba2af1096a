[package]
name = "sme_pro"
version = "0.1.0"
edition = "2021"
publish = false

[dependencies]
anyhow = "=1.0.104"
argon2 = "=0.5.3"
base64 = "=0.22.1"
calamine = { version = "=0.38.0", features = ["dates"] }
chrono = "=0.4.45"
ed25519-dalek = { version = "=2.2.0", features = ["rand_core"] }
hex = "=0.4.3"
hmac = "=0.12.1"
native-tls = "=0.2.18"
rand = "=0.8.8"
rand_core = { version = "=0.6.4", features = ["getrandom"] }
rusqlite = { version = "=0.31.0", features = ["bundled-sqlcipher", "backup"] }
rust_xlsxwriter = "=0.79.4"
serde = { version = "=1.0.229", features = ["derive"] }
serde_json = "=1.0.154"
sha2 = "=0.10.9"
tiny_http = "=0.12.0"
ureq = { version = "=2.12.1", features = ["json", "native-tls"] }
uuid = { version = "=1.29.0", features = ["v4"] }
