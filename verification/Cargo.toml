[package]
name = "problems_filter"
version = "0.1.0"
edition = "2021"
publish = false

[dependencies]
serde_json = "*"
tabled = "*"
clap = { version = "*", features = ["derive"] }
