[package]
name = "plumber_mdl"
version = "0.1.0"
edition = "2021"
publish = false

[dependencies]
nalgebra = "*"
