[package]
name = "settings_app"
version = "0.1.0"
edition = "2021"
publish = false

[dependencies]
ab_glyph = "0.2.32"
arboard = { version = "3.7.0", default-features = false, features = ["image-data"] }
auto-launch = "0.6.0"
chrono = "0.4.45"
directories = "6.0.0"
eframe = { version = "0.34.3", default-features = false, features = ["default_fonts", "glow", "x11"] }
egui = "0.34.3"
egui-phosphor = "*"
egui-toast = "*"
global-hotkey = "0.9.0"
hostname = "0.4.2"
image = { version = "0.25.10", default-features = false, features = ["png", "jpeg", "bmp"] }
imageproc = { version = "0.27.0", default-features = false }
raw-window-handle = "0.6.2"
rusqlite = { version = "*", features = ["bundled"] }
tiny-skia = "0.12.0"
tracing = "0.1.44"
