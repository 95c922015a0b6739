[package]
name = "billiards"
version = "0.1.0"
edition = "2021"
publish = false

[dependencies]
rug = { version = "=1.19.2", default-features = false, features = ["rational", "serde"] }
gmp-mpfr-sys = { version = "1", default-features = false, features = ["use-system-libs"] }
chrono = { version = "=0.4.45", features = ["serde"] }
clap = "=2.34.0"
colored = "=2.2.0"
rand = "=0.8.8"
rustyline = "=9.1.2"
serde = { version = "=1.0.229", features = ["derive"] }
serde_json = "=1.0.154"
