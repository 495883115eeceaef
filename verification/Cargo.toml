[package]
name = "all_smi"
version = "0.26.3"
edition = "2021"
publish = false

[dependencies]
libloading = "0.8"
nvml-wrapper = "*"
serde = { version = "1", features = ["derive"] }
serde_json = "1"
