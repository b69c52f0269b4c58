[package]
name = "custody_kernel"
version = "0.1.0"
edition = "2021"
publish = false

[dependencies]
anchor-lang = "*"
spl-tlv-account-resolution = "*"
spl-transfer-hook-interface = "*"
