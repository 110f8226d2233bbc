[package]
name = "sealed_dioxus_ui"
version = "0.1.0"
edition = "2021"
publish = false

[dependencies]
base64 = "=0.22.1"
nucleo-matcher = "=0.3.1"
chrono = { version = "=0.4.45", features = ["serde"] }
serde = { version = "=1.0.229", features = ["derive"] }
human_bytes = "=0.4.3"
lupabase = "=1.0.0"
yt-dlp = "=2.10.0"
reqwest = "=0.13.5"
arboard = "=3.7.0"
ciborium = "=0.2.2"
tracing = "=0.1.44"
tracing-subscriber = { version = "=0.3.23", features = ["env-filter"] }
enable-ansi-support = "=0.3.1"
rootcause = "=0.13.0"
rootcause-backtrace = "=0.13.0"
