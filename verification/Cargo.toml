[package]
name = "aio_cooler"
version = "0.1.0"
edition = "2021"
publish = false

[dependencies]
anyhow = "=1.0.104"
chrono = { version = "=0.4.45", default-features = false, features = ["clock", "std"] }
crossbeam = "=0.8.5"
eframe = { version = "=0.37.0", default-features = false, features = ["glow", "x11", "default_fonts"] }
egui_extras = { version = "=0.37.0", default-features = false }
egui_logger = "=0.13.0"
env_logger = { version = "=0.11.11", default-features = false }
log = "=0.4.34"
md5 = "=0.7.0"
rfd = { version = "=0.17.2", default-features = false, features = ["xdg-portal"] }
serde = { version = "=1.0.229", features = ["derive"] }
serde_json = "=1.0.154"
serialport = { version = "=4.10.1", default-features = false }
