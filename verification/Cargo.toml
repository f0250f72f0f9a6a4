[package]
name = "frdm_server"
version = "0.1.0"
edition = "2021"
publish = false

[dependencies]
indexmap = "=2.14.2"
circular-buffer = "=1.2.1"
photon-rs = "=0.3.3"
opencv = "=0.94.4"
bincode = "=2.0.1"
serde = { version = "=1.0.229", features = ["derive"] }
serde_yaml = "=0.9.34"
parking_lot = "=0.12.5"
log = "=0.4.35"
