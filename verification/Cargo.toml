[package]
name = "jscore"
version = "0.1.0"
edition = "2021"

[dependencies]
javascriptcore-sys = "*"
