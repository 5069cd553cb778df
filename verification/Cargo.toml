[package]
name = "beejlander"
version = "0.1.0"
edition = "2021"
publish = false

[dependencies]
async-std = "1"
surf = "2"
