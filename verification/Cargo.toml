[package]
name = "fisher"
version = "0.1.0"
edition = "2021"
publish = false

[dependencies]
rayon = "1"
yansi = "0.5"
