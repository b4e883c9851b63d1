[package]
name = "dialog-core"
version = "0.1.0"
edition = "2021"
publish = false

[dependencies]
base64 = "0.22"
serde = { version = "1", features = ["derive"] }
serde_json = "1"
ureq = "2"
open = "5"
ctrlc = "3"
tauri = { version = "2", default-features = false }
windows-sys = { version = "0.59", features = ["Win32_Foundation", "Win32_System_Console"] }
