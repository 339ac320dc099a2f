[package]
name = "ornis_render"
version = "0.1.0"
edition = "2021"
publish = false

[dependencies]
wgpu = "30"
naga = { version = "30", features = ["wgsl-in", "wgsl-out"] }
glam = { version = "*", features = ["bytemuck"] }
bytemuck = { version = "1", features = ["derive"] }
serde = { version = "1", features = ["derive"] }
ron = "*"
rayon = "1"
