[package]
name = "lt_engine"
version = "0.1.0"
edition = "2021"
publish = false

[dependencies]
sha2 = "*"
hdrhistogram = "*"
tokio = { version = "*", features = ["sync", "time", "rt-multi-thread", "macros"] }
serde = { version = "*", features = ["derive"] }
serde_json = "*"
schemars = "*"
jsonschema = "*"
clap = { version = "*", features = ["derive"] }
anyhow = "*"
thiserror = "*"
reqwest = { version = "*", default-features = false }
console = "*"
indicatif = "*"
num_cpus = "*"
async-trait = "*"
