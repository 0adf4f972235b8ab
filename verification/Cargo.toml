[package]
name = "datatool"
version = "0.1.0"
edition = "2021"
publish = false

[dependencies]
anyhow = "1"
clap = { version = "4", features = ["derive"] }
pasture-core = "*"
pasture-io = "*"
polars = { version = "*", default-features = false, features = ["csv", "parquet"] }
rayon = "1"
walkdir = "2"
