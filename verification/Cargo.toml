[package]
name = "otoha"
version = "0.1.0"
edition = "2021"
publish = false

[dependencies]
accessibility-sys = "=0.2.0"
arboard = { version = "=3.7.0", default-features = false }
core-foundation = "=0.10.1"
core-graphics = "=0.25.0"
log = "=0.4.35"
serde = { version = "=1.0.229", features = ["derive"] }
serde_json = "=1.0.154"
tauri = { version = "2", default-features = false, features = ["tray-icon"] }
tauri-plugin-global-shortcut = { version = "2", default-features = false }
ureq = { version = "=2.12.1", default-features = false }
