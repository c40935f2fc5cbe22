[package]
name = "scene_explorer"
version = "0.1.0"
edition = "2021"
publish = false

[dependencies]
bytemuck = { version = "1", features = ["derive"] }
env_logger = "0.11"
glam = "0.27"
log = "0.4"
pollster = "0.3"
wgpu = { version = "0.20", default-features = false, features = ["wgsl"] }
