[package]
name = "composite_joystick"
version = "0.1.0"
edition = "2021"
publish = false

[dependencies]
crossbeam-channel = "*"
evdev-rs = "*"
serde = { version = "*", features = ["derive"] }
serde_yaml = "*"
xdg = "*"
anyhow = "*"
clap = { version = "*", features = ["derive"] }
thiserror = "*"
