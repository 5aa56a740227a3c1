[package]
name = "tacticlip"
version = "0.1.0"
edition = "2021"
publish = false

[dependencies]
regex = "1"
serde = { version = "1", features = ["derive"] }
serde_json = "1"
once_cell = "1"
directories = "*"
rusqlite = { version = "*", features = ["bundled"] }
tokio = { version = "1", features = ["rt", "time"] }
