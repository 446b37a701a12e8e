[package]
name = "axprocess"
version = "0.1.0"
edition = "2021"
publish = false

[dependencies]
kspin = "0.1"
weak-map = "0.1"
