[package]
name = "bids_smemlib"
version = "0.1.0"
edition = "2021"
publish = false

[dependencies]
bytemuck = { version = "1", features = ["derive"] }
thiserror = "2"
