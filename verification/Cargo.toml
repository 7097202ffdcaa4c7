[package]
name = "subtitle_export"
version = "0.1.0"
edition = "2021"
publish = false

[dependencies]
bytemuck = "=1.25.2"
glyphon = "0.10.0"
image = { version = "=0.25.10", default-features = false, features = ["png"] }
md5 = "=0.8.1"
serde_json = "=1.0.154"
tokio = { version = "=1.54.1", default-features = false, features = ["rt", "sync"] }
wgpu = { version = "=28.0.0", default-features = false, features = ["wgsl"] }
