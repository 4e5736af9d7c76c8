[package]
name = "kdeconnect_waybar"
version = "0.1.0"
edition = "2021"
publish = false

[dependencies]
clap = { version = "=4.6.7", features = ["cargo"] }
color-eyre = "=0.6.5"
dbus = { version = "=0.9.12", features = ["vendored"] }
dirs = "=6.0.0"
notify = "=8.2.1"
schemars = "=1.2.3"
serde = { version = "=1.0.229", features = ["derive"] }
serde_json = "=1.0.154"
strum = { version = "=0.27.2", features = ["derive"] }
thiserror = "=2.0.21"
