[package]
name = "junco_launcher_utils"
version = "0.1.0"
edition = "2021"
publish = false

[dependencies]
sha1 = "0.10"
sha2 = "0.10"
hex = "0.4"
dirs = "*"
reqwest = { version = "0.12", default-features = false, features = ["stream"] }
futures-util = "0.3"
serde = { version = "1", features = ["derive"] }
serde_json = "1"
