[package]
name = "xgrep"
version = "0.1.0"
edition = "2021"
publish = false

[dependencies]
regex = "*"
clap = "*"
walkdir = "*"
crossbeam-channel = "*"
crossbeam-utils = "*"
