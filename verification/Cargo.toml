[package]
name = "rclamp"
version = "0.1.0"
edition = "2021"
publish = false

[dependencies]
egui = "0.27"
egui_extras = "0.27"
log = "0.4"
open = "5"
pretty_env_logger = "0.5"
serde = { version = "1", features = ["derive"] }
serde_yaml = "0.9"
