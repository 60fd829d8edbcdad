[package]
name = "eugene"
version = "0.1.0"
edition = "2021"
publish = false

[dependencies]
rand = "*"
prettytable-rs = "*"
parking_lot = "*"
