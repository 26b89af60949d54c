[package]
name = "medic"
version = "0.1.0"
edition = "2021"
publish = false

[dependencies]
anstyle = "*"
os_info = "*"
rustc_version_runtime = "*"
