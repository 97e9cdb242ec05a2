[package]
name = "formula_rs_wasm"
version = "0.1.0"
edition = "2021"
publish = false

[dependencies]
num = { version = "0.4", features = ["serde"] }
hashbrown = "0.14"
serde = { version = "1", features = ["derive"] }
serde_json = "1"
bincode = "1.3"
rayon = "1"
