[package]
name = "mcafee"
version = "0.1.0"
edition = "2021"
publish = false

[dependencies]
sha2 = "0.10"
rand = "0.8"
rayon = "1"
chrono = "0.4"
tracing-subscriber = "0.3"
