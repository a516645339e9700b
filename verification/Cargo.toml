[package]
name = "opengl_project"
version = "0.1.0"
edition = "2021"
publish = false

[dependencies]
zstd = "0.13"
bytemuck = "1"
bitvec = "1"
glam = "0.29"
noise = "0.9"
crossbeam = "0.8"
tokio = { version = "1", features = ["rt", "net", "sync", "time", "macros"] }
chrono = "0.4"
strum = { version = "0.26", features = ["derive"] }
