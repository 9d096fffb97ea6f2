[package]
name = "vid_uvc"
version = "0.1.0"
edition = "2021"
publish = false

[dependencies]
anyhow = "=1.0.104"
eframe = { version = "=0.37.0", default-features = false, features = ["default_fonts", "wgpu", "x11"] }
egui = { version = "=0.37.0", default-features = false }
enum-map = { version = "=2.7.3", features = ["serde"] }
image = { version = "=0.25.10", default-features = false, features = ["png"] }
parking_lot = "=0.12.5"
serde = { version = "=1.0.229", features = ["derive"] }
serde_json = "=1.0.154"
tokio = { version = "=1.54.1", features = ["macros", "rt-multi-thread", "sync", "time"] }
