[package]
name = "savecodex"
version = "0.1.0"
edition = "2021"
publish = false

[dependencies]
natord = "=1.0.9"
serde_json = "=1.0.154"
mime_guess = "=2.0.5"
serde = { version = "=1.0.229", features = ["derive"] }
anyhow = "=1.0.104"
clap = { version = "=4.6.7", features = ["derive"] }
tokio = { version = "=1.54.1", features = ["full"] }
axum = { version = "=0.7.9", features = ["multipart"] }
tower-http = { version = "=0.5.2", features = ["cors", "compression-gzip", "trace"] }
reqwest = { version = "=0.12.28", default-features = false, features = ["json", "rustls-tls"] }
image = { version = "=0.24.9", default-features = false, features = ["png"] }
imageproc = { version = "=0.23.1", default-features = false }
ab_glyph = "=0.2.32"
docx-rs = "=0.4.22"
ignore = "=0.4.34"
portable-pty = "=0.8.1"
directories = "=5.0.1"
dotenvy = "=0.15.7"
tempfile = "=3.27.0"
rust-embed = { version = "=8.13.0", features = ["interpolate-folder-path"] }
tracing = "=0.1.44"
tracing-subscriber = { version = "=0.3.23", features = ["env-filter"] }
