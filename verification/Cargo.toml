[package]
name = "ropy"
version = "0.1.0"
edition = "2021"
publish = false

[dependencies]
async-channel = "=2.5.0"
auto-launch = "0.5"
chrono = { version = "=0.4.45", default-features = false, features = ["clock", "std"] }
clipboard-rs = "=0.2.4"
dirs = "=6.0.0"
image = { version = "=0.25.10", default-features = false, features = ["png"] }
serde = { version = "=1.0.229", features = ["derive"] }
serde_json = "=1.0.154"
sled = "=0.34.7"
thiserror = "=1.0.69"
toml = "=0.8.23"

[dev-dependencies]
tempfile = "=3.27.0"
