[package]
name = "object_catalog"
version = "0.1.0"
edition = "2021"
publish = false

[dependencies]
eframe = { version = "0.22", default-features = false, features = ["glow"] }
egui_extras = { version = "0.22", default-features = false, features = ["image"] }
env_logger = { version = "0.10", default-features = false }
hex = "0.4"
kamadak-exif = "0.5"
serde = { version = "1", features = ["derive"] }
serde_json = "1"
