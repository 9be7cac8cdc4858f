[package]
name = "vixenlens"
version = "0.1.0"
edition = "2021"
publish = false

[dependencies]
base64 = "=0.22.1"
chrono = "=0.4.45"
mime_guess = "=2.0.5"
serde = { version = "=1.0.229", features = ["derive"] }
serde_json = "=1.0.154"
uuid = { version = "=1.29.1", features = ["v4"] }
image = { version = "=0.25.10", default-features = false, features = ["png", "jpeg"] }
png = "=0.17.16"
rusqlite = { version = "=0.41.1", features = ["bundled"] }
walkdir = "=2.5.0"
rayon = "=1.12.0"
tokio = { version = "=1.54.1", features = ["sync", "rt"] }
tauri = { version = "2", default-features = false }
