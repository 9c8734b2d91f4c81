[package]
name = "yutikor"
version = "0.1.0"
edition = "2021"
publish = false

[dependencies]
eframe = { version = "0.33", default-features = false, features = ["default_fonts", "glow", "wayland", "x11"] }
rfd = "*"
dirs = "*"
serde = { version = "1", features = ["derive"] }
serde_json = "1"
