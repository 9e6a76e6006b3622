[package]
name = "aurelis"
version = "0.1.0"
edition = "2021"
publish = false

[dependencies]
symphonia = "=0.5.5"
rubato = "=5.0.1"
cpal = "=0.18.2"
