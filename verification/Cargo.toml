[package]
name = "mirl_build_tools"
version = "0.1.0"
edition = "2021"
publish = false

[dependencies]
simd-json = "*"
version_check = "0.9"
terminal_size = "*"
