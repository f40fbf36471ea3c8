[package]
name = "colorify"
version = "0.1.0"
edition = "2021"
publish = false

[dependencies]
base64 = "=0.22.1"
serde = { version = "1", features = ["derive"] }
serde_json = "1"
log = "0.4"
rfd = { version = "0.15", default-features = false }
tauri = { version = "2", default-features = false, features = ["tray-icon"] }
windows-sys = { version = "0.59", features = ["Win32_Foundation", "Win32_Graphics_Gdi", "Win32_UI_ColorSystem"] }
