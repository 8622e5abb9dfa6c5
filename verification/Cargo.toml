[package]
name = "camera_ctrl"
version = "0.1.0"
edition = "2021"
publish = false

[dependencies]
failure = "0.1.8"
itertools = "0.8.2"
rlua = "0.17.1"
serde = { version = "1.0", features = ["derive"] }
