[package]
name = "accessibility-rs"
version = "0.1.0"
edition = "2021"
publish = false

[dependencies]
scraper = { version = "*", default-features = false }
taffy = "*"
contrast = "*"
rgb = "*"
rayon = "*"
crossbeam-channel = "*"
serde = { version = "*", features = ["derive"] }
