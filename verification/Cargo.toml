[package]
name = "screen_stream"
version = "0.1.0"
edition = "2021"
publish = false

[dependencies]
ashpd = { version = "0.10", default-features = false, features = ["tokio"] }
ffmpeg-next = "=7.1.0"
pipewire = "=0.8.0"
tokio = { version = "=1.54.1", features = ["full"] }
