[package]
name = "railroad_dsl"
version = "0.1.0"
edition = "2021"

[dependencies]
railroad = { version = "=0.3.9", default-features = false }
