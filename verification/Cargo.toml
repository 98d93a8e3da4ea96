[package]
name = "mrp2_circuits"
version = "0.1.0"
edition = "2021"
publish = false

[dependencies]
plonky2 = "=1.1.0"
ethers-core = "=2.0.14"

[dev-dependencies]
rand = "=0.8.8"
