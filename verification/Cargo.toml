[package]
name = "linkswitch"
version = "0.1.0"
edition = "2021"
publish = false

[dependencies]
eframe = { version = "0.36.1", default-features = false, features = ["glow", "default_fonts", "x11"] }
egui = "0.36.1"
tray-icon = { version = "0.24.2", default-features = false }
raw-window-handle = "0.6.2"
serde = { version = "1", features = ["derive"] }
serde_json = "1"

[dependencies.windows]
version = "0.62.2"
features = [
  "Win32_Foundation",
  "Win32_NetworkManagement_IpHelper",
  "Win32_NetworkManagement_Ndis",
  "Win32_NetworkManagement_NetManagement",
  "Win32_NetworkManagement_WiFi",
  "Win32_NetworkManagement_WindowsConnectionManager",
  "Win32_Networking_WinSock",
  "Win32_Security",
  "Win32_System_Com",
  "Win32_System_Console",
  "Win32_System_Ole",
  "Win32_System_Registry",
  "Win32_System_TaskScheduler",
  "Win32_System_Threading",
  "Win32_System_Variant",
  "Win32_UI_Shell",
  "Win32_UI_WindowsAndMessaging",
]
