[package]
name = "ray_tracing"
version = "0.1.0"
edition = "2021"
publish = false

[dependencies]
clap = "2"
num_cpus = "1"
pbr = "1"
rand = "0.8"
image = "0.23"
