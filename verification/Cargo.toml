[package]
name = "steam_quick_switch"
version = "0.1.0"
edition = "2021"
publish = false

[dependencies]
keyvalues-parser = "*"
serde = { version = "1", features = ["derive"] }
serde_json = "1"
sys-locale = "*"
sysinfo = "*"
image = { version = "*", default-features = false, features = ["png"] }
winreg = "*"
