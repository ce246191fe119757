[package]
name = "pixel_canvas"
version = "0.1.0"
edition = "2021"
publish = false

[dependencies]
ndarray = "0.15"
image = "0.24"
axum = { version = "0.6", features = ["ws"] }
futures = "0.3"
tokio = { version = "1", features = ["full"] }
