[package]
name = "adr_gen"
version = "0.1.0"
edition = "2021"
publish = false

[dependencies]
markdown = "*"
fs_extra = "*"
