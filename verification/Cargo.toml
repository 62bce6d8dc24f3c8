[package]
name = "relay_curve_estimator"
version = "0.2.0"
edition = "2021"
publish = false

[dependencies]
image = { version = "0.25", default-features = false, features = ["png"] }
eframe = { version = "0.31", default-features = false, features = ["glow", "default_fonts", "x11"] }
egui_plot = "0.31"
arboard = { version = "3", default-features = false }
rfd = "0.15"
