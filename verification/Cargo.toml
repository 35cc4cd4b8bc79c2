[package]
name = "babe_epoch_fix"
version = "0.1.0"
edition = "2021"
publish = false

[dependencies]
parity-db = "*"
