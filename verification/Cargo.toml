[package]
name = "dnote"
version = "0.1.0"
edition = "2021"
publish = false

[dependencies]
clap = { version = "*", features = ["derive"] }
ctrlc = "*"
futures-lite = "*"
reqwest = { version = "*", default-features = false, features = ["blocking", "json"] }
serde = { version = "*", features = ["derive"] }
serde_json = "*"
swayipc = "*"
tokio = { version = "*", features = ["rt-multi-thread"] }
zbus = "*"
