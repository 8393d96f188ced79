[package]
name = "orbit_sim"
version = "0.1.0"
edition = "2021"
publish = false

[dependencies]
eframe = { version = "=0.32.3", default-features = false, features = ["default_fonts", "glow", "x11"] }
egui = "=0.32.3"
egui_material_icons = "=0.4.0"
rfd = "=0.15.4"
web-time = "=1.1.0"
