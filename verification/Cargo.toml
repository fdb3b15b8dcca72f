[package]
name = "tt-metal"
version = "0.1.0"
edition = "2021"
publish = false

[dependencies]
bytemuck = "=1.25.2"
serde = { version = "=1.0.229", features = ["derive"] }
cubecl-common = "=0.10.0"
cubecl-ir = "=0.10.0"
cubecl-runtime = "=0.10.0"
cubecl-zspace = "=0.10.0"
