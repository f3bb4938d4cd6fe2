[package]
name = "connect_four"
version = "0.1.0"
edition = "2021"
publish = false

[dependencies]
colored = "2"
figlet-rs = "0.1"
rand = "0.8"
rayon = "1"
term-table = "1.3"
