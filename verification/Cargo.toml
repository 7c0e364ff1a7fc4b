[package]
name = "uuidmap"
version = "0.1.0"
edition = "2021"
publish = false

[dependencies]
indexmap = { version = "2", features = ["rayon"] }
rayon = "1"
rkyv = { version = "0.8", features = ["uuid-1"] }
scylla = "1"
uuid = { version = "1", features = ["v1", "v4", "v7"] }
uuid-like = "*"
