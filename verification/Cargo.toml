[package]
name = "driftwm"
version = "0.1.0"
edition = "2021"
publish = false

[dependencies]
regex = "1"
tracing = "0.1"
libc = "0.2"
smithay = { version = "0.7", default-features = false, features = ["wayland_frontend", "desktop", "renderer_gl"] }
