[package]
name = "search_demo"
version = "0.1.0"
edition = "2021"
publish = false

[dependencies]
regex = "=1.13.1"
base64 = "=0.22.1"
serde = { version = "1", features = ["derive"] }
serde_json = "1"
anyhow = "1"
url = "2"
tokio = { version = "1", features = ["macros", "rt-multi-thread", "net", "fs", "io-util"] }
axum = { version = "0.7", features = ["multipart"] }
reqwest = { version = "0.12", default-features = false, features = ["json"] }
futures = "0.3"
futures-util = "0.3"
tracing = "0.1"
tracing-subscriber = { version = "0.3", features = ["env-filter"] }
dotenvy = "0.15"
ndarray = "0.15"
ort = { version = "=2.0.0-rc.15", default-features = false, features = ["ndarray"] }
image = { version = "0.25", default-features = false, features = ["png", "jpeg"] }
rand = "0.8"
