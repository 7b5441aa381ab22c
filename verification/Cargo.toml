[package]
name = "cartographer"
version = "0.1.0"
edition = "2021"
publish = false

[dependencies]
accessibility = "=0.2.0"
accessibility-sys = "=0.2.0"
core-foundation = "=0.10.1"
core-graphics = { version = "=0.25.0", default-features = false }
dirs = "=7.0.0"
objc = "=0.2.7"
serde = { version = "=1.0.229", features = ["derive"] }
toml = "=1.1.8"
