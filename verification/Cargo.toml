[package]
name = "voxel_store"
version = "0.1.0"
edition = "2021"
rust-version = "1.95"
publish = false

[dependencies]
bevy = { version = "=0.16.1", default-features = false }
ilattice = { version = "=0.4.0", features = ["morton-encoding"] }
ndcopy = "=0.3.0"
ndshape = "=0.3.0"
