[package]
name = "winbang"
version = "0.1.0"
edition = "2021"
publish = false

[dependencies]
shell-words = "1"
which = "*"
serde = { version = "1", features = ["derive"] }
toml = "*"
