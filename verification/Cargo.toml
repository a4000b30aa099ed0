[package]
name = "bertram"
version = "0.1.0"
edition = "2021"
publish = false

[dependencies]
csv = "=1.4.0"
bytestream = "=0.4.1"
