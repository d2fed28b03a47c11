[package]
name = "steps_core"
version = "0.1.0"
edition = "2021"
publish = false

[dependencies]
anyhow = "1"
clap = { version = "4", features = ["derive"] }
csv = "1"
derive_builder = "*"
indicatif = "*"
rand = "0.8"
rand_distr = "0.4"
rand_pcg = "0.3"
serde = { version = "1", features = ["derive"] }
serde_json = "1"
serde_tuple = "*"
thiserror = "1"
