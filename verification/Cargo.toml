[package]
name = "beacons"
version = "0.1.0"
edition = "2021"
publish = false

[dependencies]
anyhow = "*"
embedded-graphics = "*"
embedded-graphics-core = "*"
