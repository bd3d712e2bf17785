[package]
name = "xdg-desktop-portal-cosmic"
version = "0.1.0"
edition = "2021"
publish = false

[dependencies]
anyhow = "=1.0.104"
ashpd = { version = "=0.13.13", default-features = false, features = ["tokio", "file_chooser"] }
dirs = "=7.0.0"
env_logger = "=0.11.11"
freedesktop-desktop-entry = "=0.8.4"
futures = "=0.3.34"
image = { version = "=0.25.10", default-features = false }
jiff = "=0.2.39"
log = "=0.4.35"
memmap2 = "=0.9.12"
png = "=0.18.1"
reis = { version = "=0.7.1", features = ["tokio"] }
rustix = { version = "=1.1.6", features = ["fs", "time"] }
serde = { version = "=1.0.229", features = ["derive"] }
tempfile = "=3.27.0"
tokio = { version = "=1.54.1", features = ["full"] }
tracing = "=0.1.44"
url = "=2.5.8"
wayland-client = "=0.31.15"
wayland-protocols = { version = "=0.32.13", features = ["client", "staging"] }
zbus = { version = "=5.19.0", default-features = false, features = ["tokio"] }
