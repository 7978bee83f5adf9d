[package]
name = "minidumper"
version = "0.1.0"
edition = "2021"
publish = false

[dependencies]
crash-context = "0.6"
libc = "0.2"
parking_lot = "0.12"
polling = "3"
uds = "0.4"
