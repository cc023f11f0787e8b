[package]
name = "tunelith"
version = "0.2.1"
edition = "2021"
publish = false

[dependencies]
blocking = "=1.7.0"
clap = { version = "=4.6.7", features = ["derive", "env"] }
futures = "=0.3.34"
futures-timer = "=3.0.4"
getrandom = "=0.3.4"
libc = "=0.2.191"
nusb = "=0.2.9"
protobuf = "=3.7.2"
serde = { version = "=1.0.229", features = ["derive"] }
thiserror = "=2.0.21"
tokio = { version = "=1.54.1", features = ["full"] }
tokio-util = { version = "=0.7.20", features = ["compat"] }
toml = "=0.9.12"
windows-sys = { version = "=0.61.2", features = ["Win32_Devices_DeviceAndDriverInstallation", "Win32_Foundation", "Win32_Media", "Win32_Media_KernelStreaming", "Win32_Security", "Win32_Storage_FileSystem", "Win32_System_IO", "Win32_System_LibraryLoader", "Win32_System_Registry", "Win32_System_Threading"] }

[dev-dependencies]
