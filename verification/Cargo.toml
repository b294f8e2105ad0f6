[package]
name = "embedded_rack"
version = "0.1.0"
edition = "2021"
publish = false

[dependencies]
anyhow = "1"
clap = { version = "4", features = ["derive"] }
rppal = "*"
embedded-hal = "1"
linux-embedded-hal = { version = "*", default-features = false, features = ["i2c"] }
rumqttc = { version = "*", default-features = false }
serde = { version = "1", features = ["derive"] }
serde_json = "1"
chrono = "*"
colored = "*"
k = "*"
nalgebra = "*"
rs-opw-kinematics = { version = "*", default-features = false }
