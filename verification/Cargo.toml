[package]
name = "mqttui"
version = "0.1.0"
edition = "2021"
publish = false

[dependencies]
getrandom = "=0.3.4"
log = "0.4"
rumqttc = { version = "=0.24.0", default-features = false }
serde = { version = "1", features = ["derive"] }
tauri = { version = "2", default-features = false, features = ["wry"] }
tokio = { version = "1", features = ["rt", "sync"] }
