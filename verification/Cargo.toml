[package]
name = "telemetry_db"
version = "0.1.0"
edition = "2021"
publish = false

[dependencies]
diesel = { version = "*", features = ["postgres", "r2d2"] }
