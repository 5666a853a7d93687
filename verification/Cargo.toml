[package]
name = "xrs"
version = "0.1.0"
edition = "2021"
publish = false

[dependencies]
is_executable = "1"
kdl = "3"
serde = { version = "1", features = ["derive"] }
serde_yaml = "0.8"
