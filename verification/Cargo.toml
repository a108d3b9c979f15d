[package]
name = "enc_dec_hwscan"
version = "0.1.0"
edition = "2021"
publish = false

[dependencies]
uuid = "1"
libloading = "0.8"
lazy_static = "1"
thiserror = "1"
indenter = "0.3"
