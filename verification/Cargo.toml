[package]
name = "librustwf"
version = "0.1.0"
edition = "2021"
publish = false

[dependencies]
rand = { version = "0.8", features = ["small_rng"] }
csv = "1"
threadpool = "1"
closure = "0.3"
clap = "4"
