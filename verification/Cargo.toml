[package]
name = "vnkey"
version = "0.1.0"
edition = "2021"
publish = false

[dependencies]
once_cell = "1"
windows = { version = "0.58", features = ["Win32_Foundation", "Win32_System_LibraryLoader", "Win32_UI_Input_KeyboardAndMouse", "Win32_UI_Shell", "Win32_UI_WindowsAndMessaging"] }
