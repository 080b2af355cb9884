[package]
name = "cellex_actor_core_rs"
version = "0.1.0"
edition = "2021"
publish = false

[dependencies]
crossbeam-queue = "0.3"
dashmap = "6"
futures = "0.3"
spin = "0.9"
