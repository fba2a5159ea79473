[package]
name = "tts_engine"
version = "0.1.0"
edition = "2021"
publish = false

[dependencies]
lingua = { version = "*", default-features = false, features = ["english", "french", "german", "spanish"] }
serde = { version = "*", features = ["derive"] }
serde_json = "*"
log = "*"
anyhow = "*"
clap = { version = "*", features = ["derive"] }
runas = "*"
