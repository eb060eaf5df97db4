[package]
name = "fns"
version = "0.1.0"
edition = "2021"
publish = false

[dependencies]
clap = "3"
indicatif = "0.15"
num_cpus = "1"
