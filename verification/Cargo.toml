[package]
name = "workout_log"
version = "0.1.0"
edition = "2021"
publish = false

[dependencies]
chrono = "*"
shell-words = "*"
serde = { version = "*", features = ["derive"] }
serde_json = "*"
dirs = "*"
rustyline = "*"
