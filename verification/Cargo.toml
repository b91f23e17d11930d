[package]
name = "emulator"
version = "0.1.0"
edition = "2021"
publish = false

[dependencies]
snowflake = "1.3"

[dev-dependencies]
rand = "0.3"
