[package]
name = "simple_time_tracker"
version = "0.1.0"
edition = "2021"
publish = false

[dependencies]
chrono = "=0.4.20"
rusqlite = { version = "=0.37.0", features = ["bundled"] }
iced = { version = "=0.3.0", features = ["tokio"] }
