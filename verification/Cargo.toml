[package]
name = "demo01"
version = "0.1.0"
edition = "2021"
publish = false

[dependencies]
fastrand = "2"
raylib = "3.7"
