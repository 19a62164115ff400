[package]
name = "fawnd"
version = "0.1.0"
edition = "2021"
publish = false

[dependencies]
anyhow = "=1.0.104"
clap = { version = "=4.6.7", features = ["derive"] }
eframe = { version = "*", default-features = false, features = ["default_fonts", "glow", "wayland", "x11"] }
egui = "*"
hidapi = { version = "=2.6.7", default-features = false, features = ["linux-native-basic-udev"] }
rfd = "*"
serde = { version = "=1.0.229", features = ["derive"] }
serde_json = "=1.0.154"
thiserror = "=2.0.21"
toml = "=1.1.8"
tracing = "=0.1.44"
tracing-subscriber = { version = "=0.3.23", features = ["env-filter"] }
zbus = "=6.2.1"
