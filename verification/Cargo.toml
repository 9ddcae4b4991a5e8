[package]
name = "switch_capture"
version = "0.1.0"
edition = "2021"
publish = false

[dependencies]
anyhow = "=1.0.104"
serde = { version = "=1.0.229", features = ["derive"] }
serde_json = "=1.0.154"
toml = "=0.8.23"
tracing = "=0.1.44"
tracing-subscriber = { version = "=0.3.23", default-features = false, features = ["env-filter", "fmt", "std", "registry"] }
crossbeam-channel = "=0.5.17"
rayon = "=1.12.0"
ringbuf = "=0.4.8"
rusttype = "=0.9.3"
image = { version = "=0.25.10", default-features = false, features = ["png"] }
nokhwa = { version = "=0.10.11", default-features = false }
ort = { version = "=2.0.0-rc.15", default-features = false, features = ["std"] }
