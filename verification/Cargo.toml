[package]
name = "graphing_engine"
version = "0.1.0"
edition = "2021"
publish = false

[dependencies]
regex = "1"
cgmath = "0.18"
bytemuck = { version = "1", features = ["derive"] }
winit = "0.30"
wgpu = "22"
glyphon = "0.6"
egui = "0.29"
egui-wgpu = "0.29"
egui-winit = { version = "0.29", default-features = false }
pollster = "0.3"
env_logger = "0.11"
rand = "0.8"
