[package]
name = "chargecap"
version = "0.1.0"
edition = "2021"
publish = false

[dependencies]
anyhow = "1"
clap = { version = "4", features = ["derive"] }
libc = "0.2"
serde = { version = "1", features = ["derive"] }
serde_json = "1"
objc2 = "*"
objc2-app-kit = "*"
objc2-foundation = "*"
tao = "*"
tray-icon = "*"
