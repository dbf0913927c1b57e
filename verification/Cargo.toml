[package]
name = "self_meter"
version = "0.6.0"
edition = "2021"
publish = false

[dependencies]
libc = "0.2"
num_cpus = "1"
quick-error = "1.2"
serde = { version = "1", features = ["derive"] }
serde_derive = "1"
