[package]
name = "optimal_allocation"
version = "0.1.0"
edition = "2021"
publish = false

[dependencies]
ethabi = "18"
