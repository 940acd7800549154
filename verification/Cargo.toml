[package]
name = "glola"
version = "0.1.0"
edition = "2021"
publish = false

[dependencies]
fps_counter = "*"
hexdump = "*"
serde = { version = "*", features = ["derive"] }
termion = "*"
