[package]
name = "svgbob"
version = "0.4.0"
edition = "2021"
publish = false

[dependencies]
unicode-width = "*"
clap = "*"
