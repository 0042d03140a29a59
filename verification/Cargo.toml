[package]
name = "aamp"
version = "0.1.0"
edition = "2021"
publish = false

[dependencies]
indexmap = { version = "=2.14.2", features = ["serde"] }
rustc-hash = "=1.1.0"
smartstring = { version = "=1.0.1", features = ["serde"] }
serde = { version = "=1.0.229", features = ["derive"] }
enum-as-inner = "=0.6.1"
almost = "=0.2.0"
