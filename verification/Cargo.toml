[package]
name = "oh_ben_claw"
version = "0.1.0"
edition = "2021"
publish = false

[dependencies]
sha2 = "=0.10.9"
hex = "=0.4.3"
uuid = { version = "=1.29.0", features = ["v4"] }
serde = { version = "=1.0.229", features = ["derive"] }
serde_json = "=1.0.154"
anyhow = "=1.0.104"
base64 = "=0.22.1"
directories = "=5.0.1"
shellexpand = "=3.1.2"
reqwest = { version = "=0.12.28", default-features = false, features = ["blocking", "json", "multipart"] }
rumqttc = { version = "0.24", default-features = false }
serialport = { version = "4", default-features = false }
