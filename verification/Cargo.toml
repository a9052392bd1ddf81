[package]
name = "lynxrdp_client"
version = "0.1.0"
edition = "2021"
publish = false

[dependencies]
anyhow = "=1.0.104"
arboard = "=3.7.0"
clap = { version = "=4.6.7", features = ["derive"] }
crossbeam-channel = "=0.5.17"
eframe = { version = "=0.31.1", default-features = false, features = ["default_fonts", "glow", "x11"] }
egui-winit = { version = "=0.31.1", default-features = false, features = ["x11", "clipboard"] }
env_logger = { version = "=0.11.11", default-features = false }
libc = "=0.2.191"
log = "=0.4.35"
png = "=0.17.16"
serde = { version = "=1.0.229", features = ["derive"] }
serde_json = "=1.0.154"
softbuffer = { version = "=0.4.8", default-features = false, features = ["x11", "x11-dlopen"] }
tempfile = "=3.27.0"
toml = "=0.8.23"
windows-sys = { version = "=0.61.2", features = ["Win32_Foundation", "Win32_System_DataExchange", "Win32_System_Memory", "Win32_System_Ole"] }
winit = { version = "=0.30.13", default-features = false, features = ["x11", "rwh_06"] }
x11rb = "=0.13.2"
