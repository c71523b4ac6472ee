[package]
name = "mediagraph"
version = "0.1.0"
edition = "2021"
publish = false
