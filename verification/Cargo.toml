[package]
name = "traffic-monitor"
version = "0.1.0"
edition = "2021"
publish = false

[dependencies]
chrono = "0.4"
serde = { version = "1", features = ["derive"] }
serde_json = "1"
dirs = "5"
log = "0.4"
env_logger = { version = "0.11", default-features = false }
sysinfo = "0.30"
nvml-wrapper = "0.10"
