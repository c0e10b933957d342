[package]
name = "glyphon"
version = "0.1.0"
edition = "2021"
publish = false

[dependencies]
wgpu = { version = "29.0.4", default-features = false, features = ["std", "wgsl"] }
cosmic-text = "=0.19.0"
glam = "=0.34.2"
