[package]
name = "destore_tools"
version = "0.1.0"
edition = "2021"
publish = false

[dependencies]
anyhow = "*"
clap = { version = "*", features = ["derive"] }
env_logger = "*"
goblin = "=0.10.7"
log = "*"
memmap2 = "*"

[dev-dependencies]
embedded-storage-async = "=0.4.2"
futures = "*"
postcard = { version = "=1.1.3", features = ["alloc"] }
postcard-schema = { version = "=0.2.5", features = ["use-std"] }
sequential-storage = "=8.0.2"
