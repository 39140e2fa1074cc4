[package]
name = "boltshell"
version = "0.1.0"
edition = "2021"
publish = false

[dependencies]
eframe = { version = "=0.32.3", default-features = false, features = ["default_fonts", "glow", "x11"] }
egui = "=0.32.3"
egui_extras = { version = "=0.32.3", features = ["svg"] }
image = { version = "=0.25.10", default-features = false, features = ["png"] }
rfd = { version = "=0.15.4", default-features = false, features = ["xdg-portal", "tokio"] }
rusqlite = { version = "=0.32.1", features = ["bundled"] }
serde = { version = "=1.0.229", features = ["derive"] }
ssh2 = "=0.9.6"
tokio = { version = "=1.54.1", features = ["rt-multi-thread", "macros"] }
