[package]
name = "allan_tools"
version = "0.1.0"
edition = "2021"
publish = false

[dependencies]
rand = "0.8"
rand_distr = "0.4"
statistical = "1.0"
thiserror = "1.0"
