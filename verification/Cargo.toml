[package]
name = "game_theory"
version = "0.1.0"
edition = "2021"
publish = false

[dependencies]
ink = "=4.3.0"
openbrush = { version = "=3.2.0", features = ["access_control"] }
parity-scale-codec = { version = "=3.7.5", features = ["derive"] }
scale-info = { version = "=2.11.6", features = ["derive"] }
