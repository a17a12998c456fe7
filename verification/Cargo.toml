[package]
name = "finshell"
version = "0.1.0"
edition = "2021"
publish = false

[dependencies]
async-channel = "2"
chrono = "0.4"
glib = "*"
gtk4 = "*"
gtk4-layer-shell = "*"
hyprland = "*"
mpris = "2"
serde = { version = "1", features = ["derive"] }
serde_json = "1"
sysinfo = "*"
tokio = { version = "1", features = ["rt-multi-thread"] }
toml = "0.8"
walkdir = "2"
