[package]
name = "row_filter"
version = "0.1.0"
edition = "2021"
publish = false

[dependencies]
evalexpr = "11"
anyhow = "1"
clap = { version = "4", features = ["derive"] }
