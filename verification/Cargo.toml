[package]
name = "dice_backend"
version = "0.1.0"
edition = "2021"
publish = false

[dependencies]
seahash = "*"
smallvec = "*"
itertools = "*"
num-rational = "*"
clap = "2"
