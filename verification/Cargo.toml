[package]
name = "declaration_engine"
version = "0.1.0"
edition = "2021"
publish = false

[dependencies]
sway-error = "=0.32.0"
sway-types = "=0.32.0"
