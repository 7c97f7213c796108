[package]
name = "hubris_servers"
version = "0.1.0"
edition = "2021"
publish = false

[dependencies]
zerocopy = "0.6"
stm32h7 = { version = "0.14", default-features = false, features = ["stm32h753"] }
