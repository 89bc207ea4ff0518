[package]
name = "geosolve_linkage"
version = "0.1.0"
edition = "2021"
publish = false

[dependencies]
slotmap = "1"
serde = { version = "1", features = ["derive"] }
serde_json = "1"
thiserror = "2"
nalgebra = "*"
