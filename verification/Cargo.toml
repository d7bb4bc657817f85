[package]
name = "vrc_get_gui"
version = "0.1.0"
edition = "2021"
publish = false

[dependencies]
sysinfo = "=0.40.1"
dirs-next = "=2.0.0"
open = "=5.4.5"
log = "=0.4.35"
serde = { version = "=1.0.229", features = ["derive"] }
tokio = { version = "=1.54.1", features = ["process"] }
windows = { version = "=0.62.2", features = ["Win32_Foundation", "Win32_Storage_FileSystem", "Win32_System_IO", "Win32_UI_WindowsAndMessaging", "Wdk_System_SystemServices", "Win32_System_SystemInformation"] }
wmi = "=0.18.4"
