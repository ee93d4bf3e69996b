[package]
name = "glia"
version = "0.1.0"
edition = "2021"
publish = false

[dependencies]
aruminium = "*"
bytemuck = "1"
clap = { version = "4", features = ["derive"] }
env_logger = "0.11"
half = "2"
hf-hub = { version = "0.4", default-features = false, features = ["ureq", "rustls-tls"] }
log = "0.4"
memmap2 = "0.9"
prost = "0.13"
rayon = "1"
toml = "0.8"
wide = "0.7"
