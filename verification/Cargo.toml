[package]
name = "zyra"
version = "0.1.0"
edition = "2021"
publish = false

[dependencies]
aya = "=0.13.1"
aya-log = "=0.2.1"
aya-obj = "=0.2.1"
clap = { version = "=4.6.7", features = ["derive"] }
tokio = { version = "=1.54.1", features = ["macros", "rt-multi-thread", "sync", "net"] }
anyhow = "=1.0.104"
libc = "=0.2.191"
log = "=0.4.35"
env_logger = "=0.11.11"
