[package]
name = "interact"
version = "0.1.0"
edition = "2021"
publish = false

[dependencies]
once_cell = "1"
retour = { version = "0.3", default-features = false }
thiserror = "1"
windows = { version = "0.58", features = ["Win32_Foundation", "Win32_Security", "Win32_Storage_FileSystem", "Win32_System_IO", "Win32_System_SystemInformation", "Win32_System_SystemServices"] }
