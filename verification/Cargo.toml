[package]
name = "imads"
version = "0.1.0"
edition = "2021"
publish = false

[dependencies]
bitflags = "2"
typed_floats = "1"
