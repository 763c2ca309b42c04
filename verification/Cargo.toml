[package]
name = "fs_extra"
version = "1.2.0"
edition = "2021"
publish = false

[dependencies]
filetime = "0.2"
