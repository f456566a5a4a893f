[package]
name = "search_bench"
version = "0.1.0"
edition = "2021"
publish = false

[dependencies]
tantivy = { version = "0.24", default-features = false, features = ["mmap"] }
arrow-array = { version = "=60.1.0", default-features = false }
arrow-schema = { version = "=60.1.0", default-features = false }
rayon = "1"
tokio = { version = "1", features = ["rt-multi-thread"] }
serde = { version = "1", features = ["derive"] }
serde_json = "1"
env_logger = { version = "0.11", default-features = false }
