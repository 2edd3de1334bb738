[package]
name = "everyframe"
version = "0.1.0"
edition = "2021"
publish = false

[dependencies]
chrono = "=0.4.45"
eframe = { version = "0.29", default-features = false, features = ["persistence", "x11"] }
egui = { version = "0.29", default-features = false }
serde = { version = "=1.0.229", features = ["derive"] }
