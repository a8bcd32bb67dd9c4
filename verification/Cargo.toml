[package]
name = "locoryn"
version = "0.1.0"
edition = "2021"
publish = false

[dependencies]
url = "=2.5.8"
encoding_rs = "=0.8.44"
argon2 = { version = "=0.5.3", features = ["std"] }
serde = { version = "=1.0.229", features = ["derive"] }
serde_json = "=1.0.154"
tokio = { version = "=1.54.1", features = ["rt-multi-thread", "macros", "time", "net", "sync"] }
reqwest = { version = "=0.12.28", default-features = false, features = ["json", "rustls-tls"] }
chrono = "=0.4.45"
async-trait = "=0.1.92"
crossbeam-channel = "=0.5.17"
base64 = "=0.22.1"
image = { version = "=0.25.10", default-features = false, features = ["png", "jpeg", "gif", "webp", "bmp"] }
rustrict = "*"
