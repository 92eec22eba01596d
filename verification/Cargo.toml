[package]
name = "bom_version_control"
version = "0.1.0"
edition = "2021"
publish = false

[dependencies]
uuid = { version = "*", features = ["v4"] }
chrono = "*"
unicode-segmentation = "*"
serde = { version = "*", features = ["derive"] }
serde_json = "*"
