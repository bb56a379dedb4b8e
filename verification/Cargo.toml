[package]
name = "stellaclaw"
version = "0.1.0"
edition = "2021"
publish = false

[dependencies]
anyhow = "1"
base64 = "0.22"
chrono = { version = "0.4", default-features = false, features = ["std", "clock"] }
crossbeam-channel = "0.5"
image = { version = "0.25", default-features = false, features = ["png", "jpeg", "gif", "webp"] }
portable-pty = "0.9"
pulldown-cmark = { version = "0.13", default-features = false }
reqwest = { version = "0.12", default-features = false, features = ["blocking", "json", "multipart"] }
serde = { version = "1", features = ["derive"] }
serde_json = "1"
sha1 = "0.10"
time = { version = "0.3", features = ["formatting", "parsing"] }
