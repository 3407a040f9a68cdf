[package]
name = "thermal-camera"
version = "0.1.0"
edition = "2021"
publish = false

[dependencies]
chrono = { version = "0.4", default-features = false, features = ["clock"] }
eframe = { version = "0.24", default-features = false, features = ["glow", "default_fonts"] }
image = { version = "0.24", default-features = false, features = ["png"] }
rppal = "0.14"
structopt = "0.3"
