[package]
name = "minime"
version = "0.1.0"
edition = "2021"
publish = false

[dependencies]
anyhow = "1"
async-trait = "*"
evdev = { version = "*", features = ["tokio"] }
futures = "*"
nix = { version = "*", features = ["ioctl", "mman"] }
tiny-skia = "*"
tokio = { version = "1", features = ["time", "rt", "macros"] }
framebuffer = "*"
