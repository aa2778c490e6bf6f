[package]
name = "openvoice"
version = "0.1.0"
edition = "2021"
publish = false

[dependencies]
arboard = { version = "=3.7.0", default-features = false, features = ["image-data"] }
cpal = "=0.18.2"
eframe = { version = "=0.37.0", default-features = false, features = ["default_fonts", "glow", "x11"] }
encoding_rs = "=0.8.44"
enigo = { version = "=0.6.1", default-features = false, features = ["x11rb"] }
ort = { version = "=2.0.0-rc.15", default-features = false, features = ["std", "load-dynamic"] }
thiserror = "2"
tray-icon = { version = "=0.26.1", default-features = false, features = ["ksni"] }
windows = { version = "0.62", features = ["Win32_Foundation", "Win32_UI_Input_KeyboardAndMouse", "Win32_UI_WindowsAndMessaging"] }
