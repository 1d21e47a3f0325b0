[package]
name = "plasma_stream"
version = "0.1.0"
edition = "2021"
publish = false

[dependencies]
image = { version = "=0.25.10", default-features = false, features = ["jpeg", "png"] }
ureq = "=2.12.1"
serde = { version = "=1.0.229", features = ["derive"] }
serde_json = "1"
toml = "=0.8.23"
directories = "=5.0.1"
