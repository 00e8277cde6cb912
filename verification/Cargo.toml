[package]
name = "vxapo_cli"
version = "0.1.0"
edition = "2021"
publish = false

[dependencies]
serde = { version = "1", features = ["derive"] }
serde_json = "1"
winreg = "*"
windows = { version = "*", features = ["Win32_Foundation", "Win32_Media_Audio", "Win32_Media_Audio_Endpoints", "Win32_System_Com", "Win32_System_Pipes", "Win32_System_Registry", "Win32_Security", "Win32_Security_Authorization", "Win32_Storage_FileSystem"] }
