[package]
name = "tubu"
version = "0.1.0"
edition = "2021"
publish = false

[dependencies]
url = "2"
serde = { version = "1", features = ["derive"] }
quick-xml = { version = "*", features = ["serialize"] }
tokio = { version = "1", features = ["full"] }
tokio-util = "0.7"
reqwest = { version = "0.12", default-features = false }
indicatif = "*"
nix = { version = "*", features = ["mman", "fs"] }
