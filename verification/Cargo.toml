[package]
name = "push2display2traktor"
version = "0.1.0"
edition = "2021"
publish = false

[dependencies]
actix-web = { version = "4", default-features = false, features = ["macros"] }
bytemuck = { version = "1", features = ["derive"] }
glyphon = "0.6"
rusb = "0.9"
serde = { version = "1", features = ["derive"] }
thiserror = "1"
tokio = { version = "1", features = ["macros", "rt-multi-thread", "sync", "time"] }
wgpu = "22"
