[package]
name = "urban_network"
version = "0.1.0"
edition = "2021"
publish = false

[dependencies]
geo = "=0.33.1"
miniz_oxide = "=0.9.1"
rand = "=0.10.3"
serde = { version = "=1.0.229", features = ["derive"] }

[dev-dependencies]
osmpbf = "=0.3.8"
