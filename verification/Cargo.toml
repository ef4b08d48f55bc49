[package]
name = "ede_todo"
version = "0.1.0"
edition = "2021"
publish = false

[dependencies]
rusqlite = { version = "*", features = ["bundled"] }
serde_json = "*"
clap = { version = "*", features = ["derive"] }
