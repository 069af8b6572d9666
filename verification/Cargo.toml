[package]
name = "nand2tetris"
version = "0.1.0"
edition = "2021"
publish = false

[dependencies]
egui = { version = "0.27", default-features = false }
egui_extras = { version = "0.27", default-features = false }
egui_glow = { version = "0.27", default-features = false }
futures = { version = "0.3", default-features = false, features = ["std", "executor"] }
glow = "0.13"
