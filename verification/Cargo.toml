[package]
name = "wav_overview"
version = "0.1.0"
edition = "2021"
publish = false

[dependencies]
anyhow = "*"
clap = { version = "*", features = ["derive"] }
hound = "*"
serde = "*"
serde_json = "*"
