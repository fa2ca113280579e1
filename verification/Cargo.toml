[package]
name = "phonemike"
version = "0.1.0"
edition = "2021"
publish = false

[dependencies]
anyhow = "1"
audiopus = "0.2"
byteorder = "1.5"
clap = { version = "4.4", features = ["derive"] }
cpal = "0.15"
tray-icon = "0.14"
windows-sys = { version = "0.52", features = ["Win32_Foundation", "Win32_System_Threading", "Win32_Storage_FileSystem", "Win32_System_Memory", "Win32_UI_WindowsAndMessaging", "Win32_System_LibraryLoader", "Win32_System_Console", "Win32_Security"] }
