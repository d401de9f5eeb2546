[package]
name = "skywriter"
version = "0.1.0"
edition = "2021"
publish = false

[dependencies]
ring = "*"
data-encoding = "*"
serde = { version = "*", features = ["derive"] }
toml = "*"
reqwest = { version = "*", default-features = false, features = ["json", "multipart", "stream"] }
tokio = { version = "*", features = ["rt-multi-thread", "macros", "fs"] }
tokio-util = { version = "*", features = ["codec"] }
