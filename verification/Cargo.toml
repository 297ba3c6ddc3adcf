[package]
name = "looking_glass_ng"
version = "0.1.0"
edition = "2021"
publish = false

[dependencies]
cgmath = "0.18"
libc = "0.2"
smithay = { version = "0.7", default-features = false, features = ["wayland_frontend", "backend_winit", "renderer_gl"] }
tracing = "0.1"
tracing-subscriber = { version = "0.3", features = ["env-filter"] }
