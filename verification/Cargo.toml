[package]
name = "sc2dsu"
version = "0.1.0"
edition = "2021"
publish = false

[dependencies]
crc32fast = "1.4"
serde = { version = "1", features = ["derive"] }
toml = "0.8"
dirs = "5"
hidapi = "2"
winreg = "0.52"
windows-sys = { version = "0.59", features = ["Win32_Foundation", "Win32_Graphics_Gdi", "Win32_System_Console", "Win32_UI_WindowsAndMessaging"] }
native-windows-gui = "1"
native-windows-derive = "1"
