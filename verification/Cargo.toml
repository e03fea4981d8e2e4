[package]
name = "sina"
version = "0.1.0"
edition = "2021"
publish = false

[dependencies]
bytemuck = { version = "1", features = ["derive"] }
fontdue = "0.8"
glam = "*"
image = { version = "0.24", default-features = false, features = ["png", "jpeg", "tiff"] }
lyon_path = "1.0"
raqote = { version = "0.8", default-features = false, features = ["png"] }
rustybuzz = "0.12"
thiserror = "1"
ttf-parser = "0.20"
