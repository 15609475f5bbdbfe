[package]
name = "arc_slice"
version = "0.1.0"
edition = "2021"
publish = false

[dependencies]
arrayvec = "0.7"
