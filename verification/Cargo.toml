[package]
name = "soft_constructor"
version = "0.1.0"
edition = "2021"
publish = false

[dependencies]
serde = { version = "1", features = ["derive"] }
serde-xml-rs = "0.8"
eframe = { version = "0.37", default-features = false, features = ["default_fonts", "glow", "x11"] }
