[package]
name = "screenclip"
version = "0.1.0"
edition = "2021"
publish = false

[dependencies]
image = { version = "=0.24.9", default-features = false, features = ["png"] }
ab_glyph = "=0.2.32"
arboard = "=3.7.0"
auto-launch = "=0.5.0"
ctrlc = "=3.5.2"
egui = "=0.31.1"
egui-phosphor = "=0.9.0"
egui-winit = { version = "=0.31.1", default-features = false, features = ["clipboard", "wayland", "x11"] }
env_logger = { version = "=0.11.11", default-features = false }
global-hotkey = "=0.6.4"
gtk = "=0.18.2"
log = "=0.4.35"
rfd = { version = "=0.15.4", default-features = false, features = ["gtk3"] }
softbuffer = "=0.4.8"
tray-icon = "=0.19.3"
winit = { version = "=0.30.13", default-features = false, features = ["x11", "wayland", "wayland-dlopen", "rwh_06"] }
windows-sys = { version = "=0.59.0", features = ["Win32_Foundation", "Win32_System_Console", "Win32_UI_WindowsAndMessaging"] }
