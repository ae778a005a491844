[package]
name = "clusterkit"
version = "0.1.0"
edition = "2021"
publish = false

[dependencies]
hnsw_rs = "*"
hdbscan = "*"
annembed = "*"
magnus = "*"
ndarray = "*"
bincode = "1"
serde = { version = "1", features = ["derive"] }
