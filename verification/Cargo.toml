[package]
name = "whirr"
version = "0.3.0"
edition = "2021"
publish = false

[dependencies]
anyhow = "1"
auto-launch = "0.5"
crossbeam-channel = "0.5"
directories = "5"
env_logger = { version = "0.11", default-features = false }
gtk = "0.18"
image = { version = "0.25", default-features = false, features = ["png"] }
log = "0.4"
raw-window-handle = "0.6"
reqwest = { version = "0.12", default-features = false, features = ["blocking"] }
serde = { version = "1", features = ["derive"] }
symphonia = { version = "0.5", default-features = false, features = ["mp3"] }
tao = "0.30"
toml = "0.8"
tray-icon = "0.19"
