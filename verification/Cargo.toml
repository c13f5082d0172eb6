[package]
name = "bluedger"
version = "0.1.0"
edition = "2021"
publish = false

[dependencies]
axum = { version = "0.8", default-features = false, features = ["http1", "json", "tokio"] }
tokio = { version = "1", features = ["macros", "rt-multi-thread", "net"] }
chrono = "0.4"
serde = { version = "1", features = ["derive"] }
env_logger = { version = "0.11", default-features = false }
log = "0.4"
eframe = { version = "0.37", default-features = false, features = ["glow", "default_fonts", "x11", "persistence"] }
egui = "0.37"
egui_plot = "*"
ehttp = { version = "*", features = ["json"] }
