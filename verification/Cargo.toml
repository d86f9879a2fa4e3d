[package]
name = "biomass"
version = "0.1.0"
edition = "2021"
publish = false

[dependencies]
rand = "=0.8.8"
bevy = { version = "=0.5.0", default-features = false, features = ["bevy_wgpu", "bevy_winit", "render", "png", "x11"] }
bevy_egui = { version = "=0.4.2", default-features = false }
async-trait = "=0.1.42"
