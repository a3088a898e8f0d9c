[package]
name = "auto_resume"
version = "0.1.0"
edition = "2021"
publish = false

[dependencies]
backon = "1.6"
base64 = "0.22"
clap = { version = "4", features = ["derive"] }
colored = "3"
easy-config-store = "0.3"
eyre = "0.6"
log = "0.4"
rayon = "1"
regex = "1"
reqwest = { version = "0.12", features = ["json"] }
serde = { version = "1", features = ["derive"] }
serde_json = "1"
tokio = { version = "1", features = ["rt-multi-thread", "macros", "fs"] }
toml = "0.9"
