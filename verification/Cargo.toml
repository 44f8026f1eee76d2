[package]
name = "shell_starter_rust"
version = "0.1.0"
edition = "2021"
publish = false

[dependencies]
crossterm = "0.28"
tokio = { version = "1", features = ["macros", "rt-multi-thread"] }
