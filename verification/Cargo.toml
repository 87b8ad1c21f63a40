[package]
name = "gltf_renderer_core"
version = "0.1.0"
edition = "2021"
publish = false

[dependencies]
tinyjson = "*"
glam = { version = "*", features = ["bytemuck"] }
bytemuck = "*"
image = "*"
