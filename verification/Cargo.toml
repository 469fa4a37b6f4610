[package]
name = "simulacrum"
version = "0.1.0"
edition = "2021"
publish = false

[dependencies]
debugit = "=0.1.2"
fragile = "=3.0.0"
