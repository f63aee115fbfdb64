[package]
name = "tango_bench"
version = "0.1.0"
edition = "2021"
publish = false

[dependencies]
statrs = "*"
clap = { version = "*", features = ["derive"] }

[dev-dependencies]
rand = { version = "*", features = ["small_rng"] }
