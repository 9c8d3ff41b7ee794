[package]
name = "tempo_rs"
version = "0.1.0"
edition = "2021"
publish = false

[dependencies]
base64 = "0.22"
serde_json = "1"
reqwest = { version = "0.12", default-features = false }
oauth2 = { version = "5", default-features = false, features = ["reqwest"] }
tokio = { version = "1", features = ["sync", "rt-multi-thread", "macros"] }
chrono = "0.4"
