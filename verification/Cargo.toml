[package]
name = "antenna_toolbox"
version = "0.1.0"
edition = "2021"
publish = false

[dependencies]
web-time = "*"
dirs = "*"
ureq = "*"
image = { version = "*", default-features = false, features = ["png"] }
egui = "*"
