[package]
name = "piso"
version = "0.1.0"
edition = "2021"
publish = false

[dependencies]
serde = { version = "1", features = ["derive"] }
toml = "*"
sysfs_gpio = "*"
spidev = "*"
