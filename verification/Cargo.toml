[package]
name = "cpu_orbit"
version = "0.1.0"
edition = "2021"
publish = false

[dependencies]
bytemuck = { version = "1", features = ["derive"] }
cgmath = "0.18"
egui = "0.29"
egui-wgpu = "0.29"
egui-winit = "0.29"
env_logger = "0.11"
glyphon = "0.6"
pollster = "0.3"
wgpu = "22"
winit = "0.30"
