[package]
name = "sketchpad"
version = "0.1.0"
edition = "2021"
publish = false

[dependencies]
wgpu = "0.16"
winit = "0.28"
glam = "*"
bytemuck = { version = "*", features = ["derive"] }
pollster = "*"
