[package]
name = "nearscreen_receiver"
version = "0.1.0"
edition = "2021"
publish = false

[dependencies]
anyhow = "=1.0.104"
clap = { version = "=4.6.7", features = ["derive"] }
env_logger = "=0.11.11"
gethostname = "=1.1.0"
if-addrs = "=0.15.0"
log = "=0.4.35"
mdns-sd = "=0.21.7"
objc2-core-foundation = "0.3"
objc2-core-media = "0.3"
objc2-core-video = "0.3"
objc2-video-toolbox = "0.3"
qrcode = { version = "=0.14.1", default-features = false }
serde = { version = "=1.0.229", features = ["derive"] }
serde_json = "=1.0.154"
softbuffer = "=0.4.8"
swash = "=0.2.10"
tray-icon = "*"
windows = { version = "*", features = ["Win32_Foundation", "Win32_Media_MediaFoundation", "Win32_System_Com", "Win32_System_Registry"] }
winit = "=0.30.13"
