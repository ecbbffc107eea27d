[package]
name = "nova"
version = "0.1.0"
edition = "2021"
publish = false

[dependencies]
bytemuck = { version = "1", features = ["derive"] }
glam = { version = "*", features = ["bytemuck"] }
image = { version = "*", default-features = false, features = ["png"] }
wgpu = "*"
winit = "*"
