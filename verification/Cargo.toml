[package]
name = "slitscan"
version = "0.1.0"
edition = "2021"
publish = false

[dependencies]
bytemuck = "1"
env_logger = "0.11"
log = "0.4"
pollster = "*"
wgpu = "30"
winit = "0.30"
