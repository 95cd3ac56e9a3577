[package]
name = "snake_engine"
version = "0.1.0"
edition = "2021"
publish = false

[dependencies]
fastrand = "2"
macroquad = "0.4"
