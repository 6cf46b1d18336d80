[package]
name = "nanomosaic"
version = "0.1.0"
edition = "2021"
publish = false

[dependencies]
image = "0.25"
log = "0.4"
simplelog = "0.12"
backtrace = "0.3"
