[package]
name = "grebe"
version = "0.1.0"
edition = "2021"
publish = false

[dependencies]
image = { version = "0.25", default-features = false, features = ["png"] }
crossbeam-channel = "0.5"
log = "0.4"
env_logger = "0.11"
serde = { version = "1", features = ["derive"] }
toml = "0.8"
serialport = { version = "4", default-features = false }
windows = { version = "0.58", features = ["implement", "Win32_Foundation", "Win32_Media_Audio", "Win32_System_Com", "Win32_System_Com_StructuredStorage", "Win32_System_Threading", "Win32_Storage_FileSystem", "Win32_Storage_EnhancedStorage", "Win32_UI_Shell", "Win32_UI_Shell_PropertiesSystem", "Win32_System_Variant", "Data_Xml_Dom", "UI_Notifications", "Foundation"] }
winit = "0.30"
tray-icon = "0.19"
