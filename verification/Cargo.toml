[package]
name = "spree"
version = "0.1.0"
edition = "2021"
publish = false

[dependencies]
env_logger = "0.11"
freecs = "*"
log = "0.4"
nalgebra-glm = { version = "*", features = ["serde-serialize"] }
pollster = "0.3"
rayon = "1"
serde = { version = "1", features = ["derive"] }
wgpu = "22"
winit = "0.30"
