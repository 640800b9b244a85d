[package]
name = "fusion_core"
version = "0.1.0"
edition = "2021"
publish = false

[dependencies]
burn-common = "0.15"
burn-tensor = "0.12"
cubecl = "0.3"
serde = { version = "1", features = ["derive"] }
spin = "0.9"
