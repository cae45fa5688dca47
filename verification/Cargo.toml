[package]
name = "digit_classifier"
version = "0.1.0"
edition = "2021"
publish = false

[dependencies]
anyhow = "1"
dialoguer = { version = "*", features = ["fuzzy-select"] }
faer = "*"
mnist = "*"
nalgebra = { version = "*", features = ["serde-serialize"] }
nalgebra-lapack = "*"
plotters = "*"
rfd = "*"
serde = { version = "1", features = ["derive"] }
serde_json = "1"
