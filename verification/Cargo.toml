[package]
name = "rush"
version = "0.1.0"
edition = "2021"
publish = false

[dependencies]
nix = "0.22"
failure = "0.1"
nixterm = "*"
