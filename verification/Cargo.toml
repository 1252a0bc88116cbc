[package]
name = "serverhud"
version = "0.1.0"
edition = "2021"
publish = false

[dependencies]
anyhow = "1"
serde = { version = "1", features = ["derive"] }
sysinfo = "0.25"
toml = "0.5"
