[package]
name = "projection"
version = "0.1.0"
edition = "2021"
publish = false

[dependencies]
smartstring = "1"
