[package]
name = "swc_remapper"
version = "0.1.0"
edition = "2021"
publish = false

[dependencies]
regex = "*"
swc_cached = "*"
serde = { version = "*", features = ["derive"] }
serde_json = "*"
