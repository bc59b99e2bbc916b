[package]
name = "rpl_constraints"
version = "0.1.0"
edition = "2021"
publish = false

[dependencies]
mirsa = "=0.2.0"
mirsa-core = "=0.2.0"
mirsa-domains = "=0.2.0"
ra-ap-rustc_index = { version = "=0.182.0", default-features = false }
