[package]
name = "rhi"
version = "0.1.0"
edition = "2021"
publish = false

[dependencies]
ash = "0.38"
ash-window = "0.13"
glam = "*"
gpu-allocator = "0.27"
raw-window-handle = "0.6"
tokio = { version = "1", features = ["fs", "rt", "rt-multi-thread", "macros"] }
trait-variant = "0.1"
winit = "0.30"
