[package]
name = "velocityx"
version = "0.4.1"
edition = "2021"
publish = false

[dependencies]
fxhash = "0.2"
parking_lot = "0.12"
