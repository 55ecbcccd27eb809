[package]
name = "affiliation_parser"
version = "0.1.0"
edition = "2021"
publish = false

[dependencies]
anyhow = "*"
chrono = "*"
clap = { version = "*", features = ["derive"] }
crossbeam-channel = "*"
csv = "*"
dashmap = "*"
flate2 = "*"
glob = "*"
hex = "*"
indicatif = "*"
log = "*"
num_cpus = "*"
rayon = "*"
serde = { version = "*", features = ["derive"] }
serde_json = "*"
serde_yaml = "*"
sha2 = "*"
simple_logger = "*"
time = { version = "*", features = ["macros"] }
uuid = { version = "*", features = ["v4"] }
