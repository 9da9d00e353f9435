[package]
name = "majin"
version = "0.2.0"
edition = "2021"
publish = false

[dependencies]
sha2 = "=0.10.9"
subtle = "=2.6.1"
getrandom = "=0.3.4"
mime_guess = "=2.0.5"
axum = { version = "=0.8.9", features = ["ws"] }
tokio = { version = "=1.54.1", features = ["full"] }
clap = { version = "=4.6.7", features = ["derive", "env"] }
serde = { version = "=1.0.229", features = ["derive"] }
serde_json = "=1.0.154"
tracing = "=0.1.44"
tracing-subscriber = { version = "=0.3.23", features = ["env-filter"] }
futures-util = "=0.3.34"
portable-pty = "=0.9.0"
rust-embed = { version = "=8.13.0", features = ["interpolate-folder-path"] }
anyhow = "=1.0.104"
ts-rs = "=10.1.0"
