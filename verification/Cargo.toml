[package]
name = "signal_backup"
version = "0.1.0"
edition = "2021"
publish = false

[dependencies]
rust-crypto = "0.2.36"
byteorder = "1"
bytes = "0.4"
prost = "*"
prost-derive = "*"
