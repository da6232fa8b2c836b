[package]
name = "wasserxr_core"
version = "0.1.0"
edition = "2021"
publish = false

[dependencies]
wasserxr = "*"
crossterm = "*"
ratatui = "*"
libc = "*"
glam = "*"
glium = "*"
openxr = "*"
serde = { version = "*", features = ["derive"] }
serde_json = "*"
glutin-winit = "*"
raw-window-handle = "*"
