[package]
name = "chartify"
version = "0.1.0"
edition = "2021"
publish = false

[dependencies]
zip = "0.6"
statrs = "*"
rayon = "*"
