[package]
name = "vibe_audio"
version = "0.1.0"
edition = "2021"
publish = false

[dependencies]
apodize = "=1.0.0"
realfft = "=3.5.0"
serde = { version = "1", features = ["derive"] }
toml = "0.8"
xdg = "3"
