[package]
name = "mainnet-observer-backend"
version = "0.1.0"
edition = "2021"
publish = false

[dependencies]
bitcoin = { version = "=0.32.102", features = ["serde"] }
clap = { version = "=4.6.7", features = ["derive"] }
diesel = { version = "=2.3.14", features = ["sqlite"] }
log = "=0.4.35"
rayon = "=1.12.0"
serde = { version = "=1.0.229", features = ["derive"] }
serde_json = "=1.0.154"
ureq = { version = "=3.5.1", features = ["json"] }
