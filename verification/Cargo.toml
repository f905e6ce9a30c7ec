[package]
name = "sass_front"
version = "0.1.0"
edition = "2021"
publish = false

[dependencies]
codemap = "0.1"
