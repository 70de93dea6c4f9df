[package]
name = "sphere_ui_components"
version = "0.1.0"
edition = "2021"
publish = false

[dependencies]
image = { version = "=0.25.10", default-features = false }
pollster = "=0.4.0"
raw-window-handle = "=0.6.2"
smallvec = "=1.16.4"
wgpu = { version = "=29.0.4", default-features = false, features = ["std", "wgsl", "vulkan"] }
windows = { version = "0.59", features = ["Win32_Foundation", "Win32_Graphics_Gdi", "Win32_System_LibraryLoader", "Win32_System_Threading", "Win32_UI_Input_KeyboardAndMouse", "Win32_UI_WindowsAndMessaging"] }
