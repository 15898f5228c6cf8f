[package]
name = "snag-core"
version = "1.0.0"
edition = "2021"
publish = false

[dependencies]
eframe = { version = "=0.37.0", default-features = false, features = ["default_fonts", "glow", "x11"] }
egui = "=0.37.0"
rfd = { version = "*", default-features = false, features = ["xdg-portal", "tokio"] }
