[package]
name = "graph_state"
version = "0.1.0"
edition = "2021"
publish = false

[dependencies]
blake3 = { version = "1", features = ["pure"] }
rustc-hash = "2"
tracing = "0.1"
rusqlite = { version = "*", features = ["bundled"] }
