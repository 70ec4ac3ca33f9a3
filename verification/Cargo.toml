[package]
name = "mycelium_computing"
version = "0.1.0"
edition = "2021"
publish = false

[dependencies]
dust_dds = "=0.15.0"
futures = "=0.3.34"
futures-timer = "=3.0.4"
smol = "=2.0.2"
