[package]
name = "linera_db"
version = "0.1.0"
edition = "2021"
publish = false

[dependencies]
linera-views = { version = "=0.15.23", default-features = false, features = ["test"] }
alloy-primitives = { version = "=1.7.3", default-features = false, features = ["serde", "rlp"] }
bcs = "=0.1.6"
futures = "=0.3.34"
