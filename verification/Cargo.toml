[package]
name = "csr_spmv"
version = "0.1.0"
edition = "2021"
publish = false

[dependencies]
rayon = "1"
sprs = { version = "0.11", default-features = false }
rand = "0.8"
