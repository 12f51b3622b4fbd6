[package]
name = "process_hardening"
version = "0.1.0"
edition = "2021"
publish = false

[dependencies]
extrasafe = "=0.5.1"
rustix = { version = "=0.37.28", features = ["fs", "process", "thread"] }
