[package]
name = "filecat"
version = "0.1.0"
edition = "2021"
publish = false

[dependencies]
rusqlite = { version = "*", features = ["bundled"] }
md-5 = "*"
walkdir = "*"
rayon = "*"
serde = { version = "*", features = ["derive"] }
serde_json = "*"
anyhow = "*"
