[package]
name = "eve_fit_os"
version = "0.1.0"
edition = "2021"
publish = false

[dependencies]
anyhow = "1"
prost = "0.13"
