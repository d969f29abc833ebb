[package]
name = "bdd_handles"
version = "0.1.0"
edition = "2021"
publish = false

[dependencies]
biodivine-lib-bdd = "=0.6.3"
