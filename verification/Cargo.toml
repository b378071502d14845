[package]
name = "acfunlive-neotool"
version = "0.1.0"
edition = "2021"
publish = false

[dependencies]
base64 = "=0.21.7"
device_query = "=1.1.3"
dunce = "=1.0.5"
enigo = "0.1"
file-serve = "=0.3.11"
futures-util = "=0.3.34"
hmac-sha256 = "=1.1.15"
once_cell = "=1.21.4"
serde = { version = "=1.0.229", features = ["derive"] }
serde_json = "=1.0.154"
serde_repr = "=0.1.21"
sha256 = "=1.6.0"
thiserror = "=1.0.69"
time = { version = "=0.3.55", features = ["formatting"] }
tokio = { version = "=1.54.1", features = ["sync", "rt", "macros", "fs"] }
tokio-tungstenite = { version = "=0.20.1", features = ["rustls-tls-webpki-roots"] }
url = "=2.5.8"
