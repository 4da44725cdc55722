[package]
name = "camera_uploads"
version = "0.1.0"
edition = "2021"
publish = false

[dependencies]
anyhow = "1"
chrono = "0.4"
clap = { version = "4", features = ["derive"] }
num = "0.4"
rexif = "*"
walkdir = "2"
