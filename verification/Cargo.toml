[package]
name = "lavish"
version = "0.1.0"
edition = "2021"
publish = false

[dependencies]
heck = "=0.5.0"
clap = "=4.6.7"
