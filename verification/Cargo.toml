[package]
name = "sdfat32"
version = "0.1.0"
edition = "2021"
publish = false
