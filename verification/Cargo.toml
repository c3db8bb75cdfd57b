[package]
name = "wordchicken"
version = "0.1.0"
edition = "2021"
publish = false

[dependencies]
rand = "*"
csv = "1"
serde = { version = "1", features = ["derive"] }
bincode = "1"
serde_json = "1"
anyhow = "1"
rayon = "1"
indicatif = "*"
candle-core = "*"
candle-nn = "*"
candle-transformers = "*"
tokenizers = { version = "*", default-features = false, features = ["onig"] }
hf-hub = { version = "*", default-features = false, features = ["ureq"] }
