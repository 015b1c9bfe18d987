[package]
name = "voxel_world"
version = "0.1.0"
edition = "2021"
publish = false

[dependencies]
lz4_flex = { version = "=0.9.5", features = ["checked-decode"] }
regex = "=1.13.1"
bincode = "=1.3.3"
serde = { version = "1", features = ["derive"] }
serde_json = "1"
rand = { version = "0.8", features = ["small_rng"] }
noise = "0.7"
base64 = "0.13"
futures-lite = "1"
clap = { version = "3", features = ["derive"] }
bevy = { version = "0.7", default-features = false, features = ["render", "bevy_winit", "png", "x11"] }
bevy_renet = "0.0.4"
bevy_egui = "0.14"
bevy_flycam = "0.7"
iyes_loopless = "0.5"
