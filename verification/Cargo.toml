[package]
name = "armtemp"
version = "0.1.0"
edition = "2021"
publish = false

[dependencies]
anyhow = "=1.0.104"
serde = { version = "=1.0.229", features = ["derive"] }
serde_json = "=1.0.154"
tokio = { version = "=1.54.1", features = ["sync", "time", "rt"] }
tauri = { version = "=2.12.5", default-features = false }
tauri-plugin-store = "=2.5.0"
windows = { version = "=0.62.2", default-features = false, features = ["Win32_Foundation", "Win32_Security", "Win32_System_Registry", "Win32_System_Performance", "Win32_System_SystemInformation", "Win32_System_Threading", "Win32_System_Power", "Win32_Graphics_Gdi", "Win32_UI_WindowsAndMessaging"] }
