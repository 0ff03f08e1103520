[package]
name = "piecanvas"
version = "0.1.0"
edition = "2021"
publish = false

[dependencies]
image = "0.22"
nuklear-rust = "*"
nuklear-backend-wgpurs = "*"
wgpu = "0.4"
winit = "0.20"
