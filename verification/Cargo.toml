[package]
name = "egui_twemoji"
version = "0.1.0"
edition = "2021"
publish = false

[dependencies]
egui = { version = "=0.32.3", default-features = false }
twemoji-assets = { version = "=1.5.1", default-features = false, features = ["svg"] }
unicode-segmentation = "=1.13.3"
