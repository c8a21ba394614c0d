[package]
name = "edcas_client"
version = "0.1.0"
edition = "2021"
publish = false

[dependencies]
bus = "=2.4.1"
chrono = { version = "=0.4.45", default-features = false, features = ["std"] }
eframe = { version = "=0.23.0", default-features = false, features = ["default_fonts", "glow"] }
json = "=0.12.4"
log = "=0.4.34"
opener = "=0.9.0"
tokio = { version = "=1.54.1", features = ["rt-multi-thread", "time"] }
