[package]
name = "myth_image"
version = "0.1.0"
edition = "2021"
publish = false

[dependencies]
ktx2 = "=0.4.0"
parking_lot = "=0.12.5"
uuid = { version = "=1.29.0", features = ["v4"] }
wgpu = { version = "29", default-features = false, features = ["std"] }
