[package]
name = "capture_archive"
version = "0.1.0"
edition = "2021"
publish = false

[dependencies]
chrono = { version = "0.4", default-features = false, features = ["clock"] }
image = { version = "0.24", default-features = false, features = ["jpeg"] }
regex = "1"
rocket = "0.5"
rocket_dyn_templates = { version = "*", features = ["tera"] }
rscam = "*"
