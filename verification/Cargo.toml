[package]
name = "pdf2image_alt"
version = "0.1.0"
edition = "2021"
publish = false

[dependencies]
image = { version = "0.25", default-features = false, features = ["jpeg"] }
tokio = { version = "1", default-features = false, features = ["process", "io-util"] }
futures = { version = "0.3" }
