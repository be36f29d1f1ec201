[package]
name = "meme_service"
version = "0.1.0"
edition = "2021"
publish = false

[dependencies]
fastrand = "2"
mime_guess = "2"
notify = "6"
serde = { version = "1", features = ["derive"] }
tokio = { version = "1", features = ["fs", "rt", "rt-multi-thread", "sync", "time"] }
tracing = "0.1"
