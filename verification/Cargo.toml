[package]
name = "dynamic_island"
version = "0.1.0"
edition = "2021"
publish = false

[dependencies]
base64 = "0.22"
png = "0.17"
uuid = { version = "1", features = ["v4"] }
serde = { version = "1", features = ["derive"] }
serde_json = "1"
dirs = "*"
rumqttc = "*"
rustls = "*"
tokio = { version = "1", features = ["rt-multi-thread", "time", "macros"] }
winreg = "*"
