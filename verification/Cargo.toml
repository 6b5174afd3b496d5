[package]
name = "balance_monitor"
version = "0.1.0"
edition = "2021"
publish = false

[dependencies]
image = { version = "0.24", default-features = false, features = ["ico", "png"] }
imageproc = { version = "0.23", default-features = false }
rusttype = "0.9"
chrono = "0.4"
reqwest = { version = "0.12", default-features = false, features = ["blocking", "json", "rustls-tls"] }
serde = { version = "1", features = ["derive"] }
serde_json = "1"
native-windows-gui = { version = "1.0.13", features = ["animation-timer"] }
winreg = "0.52"
