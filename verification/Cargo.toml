[package]
name = "turto"
version = "0.1.0"
edition = "2021"
publish = false

[dependencies]
url = "2"
hls_m3u8 = "0.4"
base64 = "0.22"
sha256 = { version = "1", default-features = false }
time = "0.3"
serde = { version = "1", features = ["derive"] }
serde_json = "1"
toml = "0.8"
serde_ignored = "0.1"
tokio = { version = "1", features = ["rt", "macros", "fs", "time", "sync", "io-util", "process"] }
reqwest = { version = "0.12", default-features = false, features = ["json", "stream"] }
uuid = { version = "1", features = ["v4"] }
rand = "0.8"
tempfile = "3"
