[package]
name = "autodiff_maxmin"
version = "0.1.0"
edition = "2021"
publish = false

[dependencies]
burn-tensor = { version = "0.17", default-features = false, features = ["std"] }
