[package]
name = "hub75"
version = "0.1.0"
edition = "2021"
publish = false

[dependencies]
embedded-graphics-core = "0.3"
embedded-hal = "0.2"
