[package]
name = "guppy"
version = "0.1.0"
edition = "2021"
publish = false

[dependencies]
anyhow = "=1.0.104"
cargo = "0.44"
cargo_metadata = "=0.9.1"
diffus = "=0.9.1"
fixedbitset = "=0.2.0"
indexmap = "=1.9.3"
itertools = "=0.9.0"
lazy_static = "=1.5.1"
nom = { version = "=5.1.3", default-features = false, features = ["std"] }
once_cell = "=1.21.4"
petgraph = "=0.5.1"
platforms = "=3.1.2"
semver = "=0.9.0"
serde_json = "=1.0.154"
structopt = "=0.3.26"
