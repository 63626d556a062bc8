[package]
name = "libmtk"
version = "0.1.0"
edition = "2021"
publish = false

[dependencies]
serde = { version = "1", features = ["derive"] }
serde_json = "1"
glam = "0.29"
clap = { version = "4", features = ["derive"] }
