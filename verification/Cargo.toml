[package]
name = "cps_interpreter"
version = "0.1.0"
edition = "2021"
publish = false

[dependencies]
ordered-float = "*"
strum = { version = "*", features = ["derive"] }
