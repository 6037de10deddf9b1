[package]
name = "deep_learn"
version = "0.1.0"
edition = "2021"
publish = false

[dependencies]
nalgebra = "*"
fastrand = "*"
thiserror = "*"
