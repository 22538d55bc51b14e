[package]
name = "material_theme"
version = "0.1.0"
edition = "2021"
publish = false

[dependencies]
material-colors = { version = "0.2", features = ["image"] }
clap = { version = "=4.6.7", features = ["derive"] }
tokio = { version = "=1.54.1", features = ["full"] }
