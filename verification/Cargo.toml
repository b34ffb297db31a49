[package]
name = "embroidery_formats"
version = "0.1.0"
edition = "2021"
publish = false

[dependencies]
archivelib = "*"
byteorder = "1"
