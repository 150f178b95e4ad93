[package]
name = "ble_serial"
version = "0.1.0"
edition = "2021"
publish = false

[dependencies]
anyhow = "=1.0.104"
btleplug = "=0.11.8"
clap = { version = "=4.6.7", features = ["derive"] }
dbus = { version = "=0.9.12", features = ["vendored"] }
futures = "=0.3.34"
inquire = "=0.7.5"
nix = { version = "=0.29.0", features = ["term", "fs"] }
tokio = { version = "=1.54.1", features = ["full"] }
tracing = "=0.1.44"
tracing-subscriber = { version = "=0.3.23", features = ["env-filter"] }
uuid = "=1.29.0"
