[package]
name = "vaporwall"
version = "0.1.0"
edition = "2021"
publish = false

[dependencies]
rust-ini = "*"
serde = { version = "1", features = ["derive"] }
serde_json = "1"
anyhow = "1"
gtk4 = "*"
gtk4-layer-shell = "*"
webkit6 = "*"
libc = "0.2"
notify = "*"
