[package]
name = "ironpaint"
version = "0.1.0"
edition = "2021"
publish = false

[dependencies]
image = { version = "0.25", default-features = false, features = ["png", "jpeg"] }
png = "0.18"
flate2 = "1"

[dev-dependencies]
