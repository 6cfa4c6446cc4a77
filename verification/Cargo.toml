[package]
name = "sensor_telemetry"
version = "0.1.0"
edition = "2021"
publish = false

[dependencies]
heapless = "0.7"
postcard = { version = "1", features = ["alloc"] }
serde = { version = "1", features = ["derive"] }
serde_json = "1"
tokio = { version = "1", features = ["macros", "rt", "sync", "time"] }
