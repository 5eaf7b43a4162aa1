[package]
name = "runner_config"
version = "0.1.0"
edition = "2021"
publish = false

[dependencies]
godot = "0.1"
