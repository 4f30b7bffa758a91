[package]
name = "particle_system"
version = "0.1.0"
edition = "2021"
publish = false

[dependencies]
anyhow = "=1.0.104"
bytemuck = { version = "=1.25.2", features = ["derive"] }
console_error_panic_hook = "=0.1.7"
console_log = "=1.1.0"
egui = "=0.37.0"
env_logger = "=0.11.11"
log = "=0.4.35"
pollster = "0.4"
wasm-bindgen = "=0.2.130"
wasm-bindgen-futures = "=0.4.80"
wgpu = "=30.0.1"
winit = "=0.30.13"
