[package]
name = "ttchip"
version = "0.1.0"
edition = "2021"
publish = false

[dependencies]
ttkmd-if = "*"
luwen-core = "*"
thiserror = "1"
