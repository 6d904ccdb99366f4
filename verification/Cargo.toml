[package]
name = "scribe_app"
version = "0.1.0"
edition = "2021"
publish = false

[dependencies]
egui = "=0.34.3"
eframe = { version = "=0.34.3", default-features = false, features = ["default_fonts", "glow", "x11"] }
egui-phosphor = { version = "=0.12.0", features = ["thin"] }
egui_tiles = "=0.15.0"
arboard = { version = "=3.7.0", default-features = false }
rfd = "=0.17.2"
notify = "=8.2.1"

[dev-dependencies]
minisign = "=0.10.0"
