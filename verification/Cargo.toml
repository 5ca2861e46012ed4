[package]
name = "xiv_quote"
version = "0.1.0"
edition = "2021"
publish = false

[dependencies]
rand = "=0.8.8"
colored = "=3.1.1"
directories = "=6.0.0"
reqwest = { version = "=0.13.5", default-features = false, features = ["json", "query"] }
serde = { version = "=1.0.229", features = ["derive"] }
serde_json = "=1.0.151"
tokio = { version = "=1.53.2", features = ["rt", "rt-multi-thread", "macros"] }
