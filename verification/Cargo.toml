[package]
name = "gigatoken_fastpath"
version = "0.1.0"
edition = "2021"
publish = false

[dependencies]
tokenizers = { version = "=0.22.2", default-features = false, features = ["fancy-regex"] }
tracing = "=0.1.44"

[dev-dependencies]
rayon = "=1.12.0"
