[package]
name = "wattch"
version = "0.1.0"
edition = "2021"
publish = false

[dependencies]
bytes = "1"
clap = { version = "4", features = ["derive"] }
libc = "0.2"
prost = "0.13"
thiserror = "2"
tokio = { version = "1", features = ["full"] }
