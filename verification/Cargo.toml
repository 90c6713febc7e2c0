[package]
name = "render_core"
version = "0.1.0"
edition = "2021"
publish = false

[dependencies]
image = { version = "=0.25.10", default-features = false, features = ["png", "jpeg"] }
cgmath = "=0.18.0"
gl = "=0.14.0"
glfw = "=0.63.0"
