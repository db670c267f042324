[package]
name = "cherry"
version = "0.1.0"
edition = "2021"
publish = false

[dependencies]
Inflector = "=0.11.4"
anyhow = "=1.0.104"
once_cell = "=1.21.4"
quote = "=1.0.47"
serde = { version = "=1.0.229", features = ["derive"] }
sql-builder = "=3.1.1"
syn = "=1.0.109"
