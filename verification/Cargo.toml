[package]
name = "duplo_core"
version = "0.1.0"
edition = "2021"
publish = false

[dependencies]
bitvec = "=1.1.1"
num_cpus = "=1.17.0"
clap = { version = "=4.6.7", features = ["derive"] }
rayon = "=1.12.0"
thiserror = "=2.0.21"
serde = { version = "1", features = ["derive"] }
serde_json = "1"
