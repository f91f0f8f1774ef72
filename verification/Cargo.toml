[package]
name = "some_platformer"
version = "0.1.0"
edition = "2021"
publish = false

[dependencies]
bytes = "=0.4.12"
futures = "=0.1.31"
tokio = "=0.1.22"
serde = { version = "=1.0.229", features = ["derive"] }
serde_json = "=1.0.154"
log = "=0.4.34"
flexi_logger = "=0.31.10"
time = "=0.1.45"
nalgebra = "=0.30.1"
ncollide2d = "=0.33.0"
