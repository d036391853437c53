[package]
name = "pane_launcher"
version = "0.1.0"
edition = "2021"
publish = false

[dependencies]
serde = { version = "1", features = ["derive"] }
serde_json = "1"
tauri = { version = "2", default-features = false }
objc2-app-kit = "0.3"
objc2-foundation = "0.3"
