[package]
name = "propdayscov"
version = "0.1.0"
edition = "2021"
publish = false

[dependencies]
chrono = "*"
clap = { version = "*", features = ["derive"] }
csv = "*"
nfd2 = "*"
rayon = "*"
serde = { version = "*", features = ["derive"] }
