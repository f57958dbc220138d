[package]
name = "equirect"
version = "0.1.0"
edition = "2021"
publish = false

[dependencies]
anyhow = "1"
ash = "*"
bytemuck = { version = "1", features = ["derive"] }
directories = "*"
egui = "*"
egui-wgpu = "*"
glam = "*"
openxr = { version = "*", default-features = false, features = ["loaded"] }
png = "0.17"
pollster = "*"
serde = { version = "1", features = ["derive"] }
serde_json = "1"
sha2 = "0.10"
ureq = "2"
wgpu = { version = "*", default-features = false, features = ["std", "vulkan", "wgsl"] }
winit = { version = "0.30", default-features = false, features = ["rwh_06", "x11"] }
