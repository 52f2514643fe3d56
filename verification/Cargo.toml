[package]
name = "hirareca"
version = "0.1.0"
edition = "2021"
publish = false

[dependencies]
curl = "=0.4.51"
lru-cache = "=0.1.2"
serde = { version = "=1.0.229", features = ["derive"] }
serde_json = "=1.0.154"
toml = "=1.1.8"
url = "=2.5.8"
xdg = "*"
xml-rs = "=0.8.29"
