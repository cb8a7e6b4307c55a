[package]
name = "xdcc_extractor"
version = "1.1.0"
edition = "2021"
publish = false

[dependencies]
regex = "1"
sha2 = "0.10"
base64 = "0.22"
serde = { version = "1", features = ["derive"] }
serde_json = "1"
toml = "0.8"
axum = "0.7"
tokio = { version = "1", features = ["rt-multi-thread", "net", "macros"] }
tracing = "0.1"
tracing-subscriber = "0.3"
ureq = { version = "2", features = ["json"] }
notify = "6"
walkdir = "2"
libc = "0.2"
anyhow = "1"
