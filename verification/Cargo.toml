[package]
name = "nebula"
version = "0.1.0"
edition = "2021"
publish = false

[dependencies]
libc = "=0.2.191"
nix = { version = "=0.31.3", features = ["mman"] }
serde_json = "1"
serde = { version = "1", features = ["derive"] }
tiny-skia = "0.11"
fontdue = "0.9"
chrono = "0.4"
