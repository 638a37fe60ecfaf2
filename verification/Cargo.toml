[package]
name = "yargui"
version = "0.1.0"
edition = "2021"
publish = false

[dependencies]
yarig = "*"
eframe = { version = "0.34", default-features = false, features = ["default_fonts", "glow", "x11"] }
egui = { version = "0.34", default-features = false }
egui_extras = { version = "0.34", default-features = false }
egui-file-dialog = { version = "0.13", default-features = false }
