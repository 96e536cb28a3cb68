[package]
name = "flowcap"
version = "0.1.0"
edition = "2021"
publish = false

[dependencies]
anstyle = "*"
clap = { version = "*", features = ["derive"] }
dns-lookup = "*"
pnet = "*"
serde = { version = "*", features = ["derive"] }
serde_json = "*"
