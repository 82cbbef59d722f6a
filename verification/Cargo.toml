[package]
name = "panel_rs"
version = "0.1.0"
edition = "2021"
publish = false

[dependencies]
anyhow = "*"
chrono = "*"
directories = "*"
serde = { version = "*", features = ["derive"] }
serde_json = "*"
toml = "*"
zbus = "*"
