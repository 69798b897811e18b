[package]
name = "terrain_core"
version = "0.1.0"
edition = "2021"
publish = false

[dependencies]
bson = "=2.15.0"
eframe = { version = "=0.31.1", default-features = false, features = ["default_fonts", "glow"] }
futures-util = "=0.3.34"
image = { version = "=0.25.10", default-features = false, features = ["png"] }
mongodb = { version = "=3.9.1", default-features = false, features = ["compat-3-0-0", "rustls-tls"] }
rfd = { version = "=0.15.4", default-features = false, features = ["tokio", "xdg-portal"] }
serde = { version = "=1.0.229", features = ["derive"] }
tokio = { version = "=1.54.1", features = ["rt"] }
winit = { version = "=0.30.13", default-features = false, features = ["x11"] }
