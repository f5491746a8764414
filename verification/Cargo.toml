[package]
name = "stock_tracker"
version = "0.1.0"
edition = "2021"
publish = false

[dependencies]
chrono = "=0.4.45"
rusqlite = { version = "=0.31.0", features = ["bundled"] }
eframe = { version = "=0.23.0", default-features = false, features = ["default_fonts", "glow", "x11"] }
