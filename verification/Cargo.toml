[package]
name = "reveal_engine"
version = "0.1.0"
edition = "2021"
publish = false

[dependencies]
rand = "0.8"
maplit = "1"
macroquad = { version = "0.3", default-features = false }
egui-macroquad = { version = "0.15", default-features = false }
