[package]
name = "mpt_core"
version = "0.1.0"
edition = "2021"
publish = false

[dependencies]
anyhow = "1"
chrono = "0.4"
dirs = "5"
image = { version = "0.25", default-features = false, features = ["png", "jpeg", "webp"] }
scopeguard = "1"
serde = { version = "1", features = ["derive"] }
toml = "0.8"
x11rb = { version = "0.13", features = ["xinput", "shape"] }
xkeysym = "0.2"

[dev-dependencies]
serde_json = "1"
