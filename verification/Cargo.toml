[package]
name = "pallet_dex"
version = "0.1.0"
edition = "2021"
publish = false

[dependencies]
sp-arithmetic = "*"
bounded-collections = "*"
