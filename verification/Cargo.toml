[package]
name = "spotify_crawl"
version = "0.1.0"
edition = "2021"
publish = false

[dependencies]
atomicring = "*"
chashmap = "*"
crossbeam-channel = "*"
csv = "*"
serde = { version = "*", features = ["derive"] }
serde_json = "*"
reqwest = { version = "*", default-features = false, features = ["blocking", "rustls-tls"] }
num_cpus = "*"
log = "*"
pretty_env_logger = "*"
indicatif = "*"
