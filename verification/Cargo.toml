[package]
name = "gear_mesh"
version = "0.1.0"
edition = "2021"
publish = false

[dependencies]
anyhow = "1"
clap = { version = "4", features = ["derive"] }
inventory = "0.3"
notify = "6"
once_cell = "1"
serde = { version = "1", features = ["derive"] }
toml = "0.8"
