[package]
name = "serial_keyboard"
version = "0.1.0"
edition = "2021"
publish = false

[dependencies]
enigo = "=0.0.14"
serde = { version = "=1.0.229", features = ["derive"] }
serde_json = "=1.0.154"
serialport = { version = "=3.3.0", default-features = false }
subprocess = "=0.2.15"
