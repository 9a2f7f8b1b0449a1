[package]
name = "scnative_core"
version = "0.1.0"
edition = "2021"
publish = false

[dependencies]
url = "=2.5.8"
regex = "=1.13.1"
urlencoding = "=2.1.3"
serde = { version = "=1.0.229", features = ["derive"] }
serde_json = "=1.0.154"
tokio = { version = "=1.54.1", features = ["process", "fs", "time", "io-util", "sync", "rt", "macros"] }
futures-util = "=0.3.34"
warp = "=0.3.7"
