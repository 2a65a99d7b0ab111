[package]
name = "onedrive_slideshow"
version = "0.1.0"
edition = "2021"
publish = false

[dependencies]
anyhow = "=1.0.104"
bytes = "=1.12.1"
rand = "=0.9.5"
reqwest = { version = "=0.12.28", features = ["gzip", "json"] }
serde = { version = "=1.0.229", features = ["derive"] }
sys-info = "=0.9.1"
sysinfo = "=0.39.6"
tao = "=0.37.2"
tokio = { version = "=1.54.1", features = ["rt-multi-thread", "time", "fs", "sync"] }
windows-sys = { version = "=0.61.2", features = ["Win32_Foundation", "Win32_Security_Credentials"] }
wry = "=0.57.1"
