[package]
name = "fmmap"
version = "0.1.0"
edition = "2021"
publish = false

[dependencies]
memmap2 = "*"
tokio = { version = "*", default-features = false, features = ["fs", "io-util"] }

[dev-dependencies]
byteorder = "*"
