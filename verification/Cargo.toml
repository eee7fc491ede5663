[package]
name = "ayeaye"
version = "0.1.0"
edition = "2021"
publish = false

[dependencies]
image = { version = "=0.25.10", default-features = false, features = ["png"] }
imageproc = { version = "=0.27.0", default-features = false, features = ["text"] }
ab_glyph = "=0.2.32"
gifski = { version = "=1.34.0", default-features = false }
imgref = "=1.12.3"
rgb = "=0.8.53"
eframe = { version = "=0.37.0", default-features = false, features = ["glow", "x11", "default_fonts"] }
rfd = "=0.17.2"
global-hotkey = "=0.9.0"
